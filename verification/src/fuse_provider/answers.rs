//! What the file system's answers say of the assets that they are about.
use vstd::prelude::*;

use crate::errno::Errno;
use crate::fuse_provider::{find, lookup_answer, name_text};
use crate::fuse_provider::detect::{entry_path, run_detect, slug_of, DetectStep, DetectStepView};
use crate::fuse_provider::fh::{
    first_bytes_tell_the_kind, write_effect, FileHandle, FileHandleView, OpenAccMode,
    RemoteAccess, WriteStep,
};
use crate::fuse_provider::laws::{
    children_are_stored, lookup_finds_by_name, sent_in_order, write_lands, Writing,
};
use crate::fuse_provider::listing::{lists_keys, sent_after, Listing};
use crate::fuse_provider::tablet::{
    entry_views, load_outcome, loaded, loaded_holds_entries, new_asset, open_answer, pointer,
    AssetView, BuildError, Db, DbPointer, DbView, Entry, FileAttr, FileType, NewFileError,
    OpenStep, TabletSftpError, Underlying,
};
use crate::fuse_provider::tree::built_from_file;
use crate::ident::{denotes, hyphenated, hyphenated_round_trip, ino_of, parsed_iff_denotes};
use crate::text::{path_is_in_the_directory, path_of, stripped_is_the_rest, with_ext};

verus! {

/// The search for a name takes the first child that has it. It ends at a child that is not in the
/// database, and a name that is not text is that of no child.
pub proof fn first_of_that_name(db: DbView, children: Seq<u64>, name: Option<Seq<char>>)
    ensures
        match find(db, children, name) {
            Ok(c) => name is Some && exists|i: int|
                {
                    &&& 0 <= i < children.len()
                    &&& #[trigger] children[i] == c
                    &&& db.store.contains_key(c)
                    &&& db.store[c].md.visible_name == name->0
                    &&& forall|j: int|
                        0 <= j < i ==> db.store.contains_key(#[trigger] children[j])
                            && name != Some(db.store[children[j]].md.visible_name)
                },
            Err(e) => {
                ||| {
                    &&& e == Errno::ENOENT
                    &&& forall|j: int|
                        0 <= j < children.len() ==> db.store.contains_key(#[trigger] children[j])
                            && name != Some(db.store[children[j]].md.visible_name)
                }
                ||| e == Errno::EFAULT && exists|i: int|
                    {
                        &&& 0 <= i < children.len()
                        &&& !db.store.contains_key(#[trigger] children[i])
                        &&& forall|j: int|
                            0 <= j < i ==> db.store.contains_key(#[trigger] children[j]) && name
                                != Some(db.store[children[j]].md.visible_name)
                    }
            },
        },
    decreases children.len(),
{
    if children.len() > 0 {
        let rest = children.skip(1);
        assert(forall|i: int| 0 <= i < rest.len() ==> #[trigger] rest[i] == children[i + 1]);
        assert(forall|i: int| 1 <= i < children.len() ==> #[trigger] children[i] == rest[i - 1]);
        if db.store.contains_key(children[0]) && name != Some(
            db.store[children[0]].md.visible_name,
        ) {
            first_of_that_name(db, rest, name);
            match find(db, rest, name) {
                Ok(c) => {
                    let i = choose|i: int|
                        {
                            &&& 0 <= i < rest.len()
                            &&& #[trigger] rest[i] == c
                            &&& forall|j: int|
                                0 <= j < i ==> db.store.contains_key(#[trigger] rest[j]) && name
                                    != Some(db.store[rest[j]].md.visible_name)
                        };
                    assert(children[i + 1] == c);
                },
                Err(e) => {
                    if e == Errno::EFAULT {
                        let i = choose|i: int|
                            {
                                &&& 0 <= i < rest.len()
                                &&& !db.store.contains_key(#[trigger] rest[i])
                                &&& forall|j: int|
                                    0 <= j < i ==> db.store.contains_key(#[trigger] rest[j])
                                        && name != Some(db.store[rest[j]].md.visible_name)
                            };
                        assert(children[i + 1] == rest[i]);
                    }
                },
            }
        }
    }
}

/// The name that is looked for is the one that was asked for.
pub proof fn looked_for_is_asked_for(name: &str)
    ensures
        name_text(Some(name)) == Some(name@),
        name_text(None) is None,
{
}

/// A lookup that succeeds answers exactly what is answered for the attributes of the file it
/// found, which is a child of the directory and has the name that was asked for. It is a
/// directory exactly where its type is `CollectionType`, and that is exactly where its own
/// contents can be listed.
pub proof fn lookup_answers_as_getattr(
    db: DbView,
    parent: DbPointer,
    name: Option<Seq<char>>,
    uid: u32,
    gid: u32,
    attr: FileAttr,
)
    requires
        lookup_answer(db, parent, name, uid, gid) == Ok::<FileAttr, Errno>(attr),
    ensures
        db.attr(DbPointer::INode { id: attr.ino }, uid, gid) == Some(attr),
        attr.ino != 1 ==> db.attr(pointer(attr.ino), uid, gid) == Some(attr),
        db.store.contains_key(attr.ino),
        name == Some(db.store[attr.ino].md.visible_name),
        db.children(parent) matches Ok(children) && children.contains(attr.ino),
        attr.size == db.store[attr.ino].size_on_disk,
        attr.uid == uid && attr.gid == gid,
        attr.kind == FileType::Directory <==> db.store[attr.ino].md.doc_type == "CollectionType"@,
        attr.kind == FileType::Directory <==> db.children(DbPointer::INode { id: attr.ino }) is Ok,
        attr.kind == FileType::Directory <==> attr.perm == 0o770,
        attr.kind == FileType::RegularFile <==> attr.perm == 0o660,
{
    let children = db.children(parent)->Ok_0;
    first_of_that_name(db, children, name);
    let c = find(db, children, name)->Ok_0;
    let i = choose|i: int| 0 <= i < children.len() && #[trigger] children[i] == c;
    assert(children.contains(c));
}

/// A lookup fails where the directory is none, for that reason, and otherwise only where no child
/// has the name or, in a database that is not well-formed, a child is unknown.
pub proof fn lookup_fails_without_the_name(
    db: DbView,
    parent: DbPointer,
    name: Option<Seq<char>>,
    uid: u32,
    gid: u32,
)
    requires
        lookup_answer(db, parent, name, uid, gid) is Err,
        db.wf(),
    ensures
        match db.children(parent) {
            Err(e) => lookup_answer(db, parent, name, uid, gid) == Err::<FileAttr, Errno>(e),
            Ok(children) => {
                &&& lookup_answer(db, parent, name, uid, gid) == Err::<FileAttr, Errno>(
                    Errno::ENOENT,
                )
                &&& forall|c: u64| #[trigger]
                    children.contains(c) ==> name != Some(db.store[c].md.visible_name)
            },
        },
{
    if db.children(parent) is Ok {
        let children = db.children(parent)->Ok_0;
        first_of_that_name(db, children, name);
        children_are_stored(db, parent, children);
        assert forall|i: int| 0 <= i < children.len() implies db.store.contains_key(
            #[trigger] children[i],
        ) by {
            assert(children.contains(children[i]));
        }
    }
}

/// Each entry of a listing has the visible name of the child whose inode number is its offset.
/// The entries come in increasing order, all behind the offset that was asked for, and end at the
/// first child that is not in the database.
pub proof fn entries_name_the_children(
    l: Listing,
    db: DbView,
    dir: u64,
    children: Seq<u64>,
    offset: u64,
    i: int,
)
    requires
        lists_keys(l, db, dir, sent_after(children, offset)),
        0 <= i < l.entries@.len(),
    ensures
        children.contains(l.entries@[i].offset),
        db.store.contains_key(l.entries@[i].offset),
        l.entries@[i].name@ == db.store[l.entries@[i].offset].md.visible_name,
        l.entries@[i].ino == dir,
        l.entries@[i].kind == FileType::RegularFile,
        l.entries@[i].offset > offset,
        forall|j: int|
            0 <= j < i ==> (#[trigger] l.entries@[j]).offset <= l.entries@[i].offset,
        children.no_duplicates() ==> forall|j: int|
            0 <= j < i ==> (#[trigger] l.entries@[j]).offset < l.entries@[i].offset,
{
    let sent = sent_after(children, offset);
    sent_in_order(children, offset);
    assert(l.entries@[i].offset == l.entries@[i]@.offset);
    assert(l.entries@[i]@.offset == sent[i]);
    assert(db.store.contains_key(sent[i]));
    assert(sent.contains(sent[i]));
    assert forall|j: int| 0 <= j < i implies (#[trigger] l.entries@[j]).offset == sent[j] by {
        assert(l.entries@[j]@.offset == sent[j]);
    }
}

/// In a well-formed database a listing of a directory has an entry for every child behind the
/// offset, and it has the child's visible name.
pub proof fn every_child_has_an_entry(
    l: Listing,
    db: DbView,
    ptr: DbPointer,
    dir: u64,
    children: Seq<u64>,
    offset: u64,
    c: u64,
)
    requires
        db.wf(),
        db.children(ptr) == Ok::<Seq<u64>, Errno>(children),
        lists_keys(l, db, dir, sent_after(children, offset)),
        children.contains(c),
        c > offset,
    ensures
        !l.broken,
        exists|i: int|
            {
                &&& 0 <= i < l.entries@.len()
                &&& (#[trigger] l.entries@[i]).offset == c
                &&& l.entries@[i].name@ == db.store[c].md.visible_name
            },
{
    let sent = sent_after(children, offset);
    sent_in_order(children, offset);
    children_are_stored(db, ptr, children);
    assert(sent.contains(c));
    let i = choose|i: int| 0 <= i < sent.len() && sent[i] == c;
    if l.broken {
        let k = sent[l.entries@.len() as int];
        assert(sent.contains(k));
        assert(children.contains(k));
    }
    assert(l.entries@[i]@.offset == c);
    entries_name_the_children(l, db, dir, children, offset, i);
}

/// A listing is cut short exactly where a child behind the offset is not in the database; it then
/// holds the children that come before the first of these.
pub proof fn cut_short_at_an_unknown_child(
    l: Listing,
    db: DbView,
    dir: u64,
    children: Seq<u64>,
    offset: u64,
)
    requires
        lists_keys(l, db, dir, sent_after(children, offset)),
    ensures
        l.broken <==> exists|c: u64| #[trigger]
            children.contains(c) && c > offset && !db.store.contains_key(c),
        l.broken ==> exists|c: u64|
            {
                &&& #[trigger] children.contains(c)
                &&& c > offset
                &&& !db.store.contains_key(c)
                &&& forall|i: int|
                    0 <= i < l.entries@.len() ==> (#[trigger] l.entries@[i]).offset <= c
            },
{
    let sent = sent_after(children, offset);
    let n = l.entries@.len() as int;
    sent_in_order(children, offset);
    if l.broken {
        let c = sent[n];
        assert(sent.contains(c));
        assert(children.contains(c));
        assert forall|i: int| 0 <= i < n implies (#[trigger] l.entries@[i]).offset <= c by {
            assert(l.entries@[i]@.offset == sent[i]);
        }
    } else {
        assert forall|c: u64| #[trigger]
            children.contains(c) && c > offset implies db.store.contains_key(c) by {
            assert(sent.contains(c));
            let i = choose|i: int| 0 <= i < sent.len() && sent[i] == c;
            assert(db.store.contains_key(sent[i]));
        }
    }
}

/// What a listing names, a lookup finds: the name of an entry leads to a child of that name.
pub proof fn entries_can_be_looked_up(
    l: Listing,
    db: DbView,
    ptr: DbPointer,
    dir: u64,
    children: Seq<u64>,
    offset: u64,
    i: int,
    uid: u32,
    gid: u32,
)
    requires
        db.wf(),
        db.children(ptr) == Ok::<Seq<u64>, Errno>(children),
        lists_keys(l, db, dir, sent_after(children, offset)),
        0 <= i < l.entries@.len(),
    ensures
        lookup_answer(db, ptr, Some(l.entries@[i].name@), uid, gid) matches Ok(attr) && {
            &&& children.contains(attr.ino)
            &&& db.store[attr.ino].md.visible_name == l.entries@[i].name@
            &&& db.attr(DbPointer::INode { id: attr.ino }, uid, gid) == Some(attr)
        },
{
    entries_name_the_children(l, db, dir, children, offset, i);
    lookup_finds_by_name(db, ptr, children, l.entries@[i].name@);
}

/// Where no other child has its name, the name of an entry leads to the very child that the entry
/// is for.
pub proof fn entry_leads_to_its_child(
    l: Listing,
    db: DbView,
    ptr: DbPointer,
    dir: u64,
    children: Seq<u64>,
    offset: u64,
    i: int,
    uid: u32,
    gid: u32,
)
    requires
        db.wf(),
        db.children(ptr) == Ok::<Seq<u64>, Errno>(children),
        lists_keys(l, db, dir, sent_after(children, offset)),
        0 <= i < l.entries@.len(),
        forall|c: u64| #[trigger]
            children.contains(c) && c != l.entries@[i].offset ==> db.store[c].md.visible_name
                != l.entries@[i].name@,
    ensures
        lookup_answer(db, ptr, Some(l.entries@[i].name@), uid, gid) matches Ok(attr) && attr.ino
            == l.entries@[i].offset,
{
    entries_can_be_looked_up(l, db, ptr, dir, children, offset, i, uid, gid);
}

/// A write that lands on a remote file, of whatever content, puts the data in place of the bytes
/// from the offset that was asked for on, and leaves every other byte as it was.
pub proof fn remote_write_replaces<R>(
    before: Writing<R>,
    offset: u64,
    data: Seq<u8>,
    step: WriteStep,
    after: Writing<R>,
)
    requires
        before.handle is Remote,
        before.file is Some,
        offset <= before.file->0.content.len(),
        write_lands(before, offset, data, step, after),
    ensures
        after.handle == before.handle,
        after.file is Some,
        after.file->0.path == before.file->0.path,
        ({
            let was = before.file->0.content;
            let is_now = after.file->0.content;
            let end = offset + data.len();
            &&& is_now.len() == if end > was.len() {
                end
            } else {
                was.len() as int
            }
            &&& forall|i: int| 0 <= i < data.len() ==> #[trigger] is_now[offset + i] == data[i]
            &&& forall|i: int| 0 <= i < offset ==> #[trigger] is_now[i] == was[i]
            &&& forall|i: int| end <= i < was.len() ==> #[trigger] is_now[i] == was[i]
        }),
{
}

/// A write to a remote file goes to the offset that was asked for, wherever that is, and leaves
/// the handle as it was.
pub proof fn remote_write_goes_where_asked<R>(
    file: R,
    offset: u64,
    data: Seq<u8>,
    step: WriteStep,
    after: FileHandleView<R>,
)
    requires
        write_effect(FileHandleView::Remote(file), offset, data, step, after),
    ensures
        step matches WriteStep::Forward { offset: at } && at == offset,
        after == FileHandleView::Remote(file),
{
}

/// A write to a new file is added to what was written before, wherever it was asked for. Once the
/// file begins with one of the two magic numbers, it is to be created with all that was written,
/// as a PDF or an EPUB; until then the bytes are kept and counted.
pub proof fn new_file_keeps_what_is_written<R>(
    buf: Seq<u8>,
    stub: Seq<char>,
    offset: u64,
    data: Seq<u8>,
    step: WriteStep,
    after: FileHandleView<R>,
)
    requires
        write_effect(FileHandleView::<R>::Created { buf, stub }, offset, data, step, after),
    ensures
        ({
            let all = buf + data;
            let pdf = all.len() >= 5 && all[0] == 0x25 && all[1] == 0x50 && all[2] == 0x44
                && all[3] == 0x46 && all[4] == 0x2d;
            let epub = all.len() >= 4 && all[0] == 0x50 && all[1] == 0x4b && all[2] == 0x03
                && all[3] == 0x04;
            &&& after == (FileHandleView::<R>::Created { buf: all, stub })
            &&& step is Create <==> pdf || epub
            &&& step matches WriteStep::Create { path, content } ==> {
                &&& content@ == all
                &&& pdf ==> path@ == stub + ".pdf"@
                &&& epub ==> path@ == stub + ".epub"@
            }
            &&& step is Buffered <==> !pdf && !epub
            &&& step matches WriteStep::Buffered(Ok(n)) ==> n == data.len()
            &&& step matches WriteStep::Buffered(Err(e)) ==> e == Errno::EOVERFLOW && data.len()
                > u32::MAX
        }),
{
    let all = buf + data;
    first_bytes_tell_the_kind(all);
    reveal_strlit(".");
    reveal_strlit("pdf");
    reveal_strlit("epub");
    reveal_strlit(".pdf");
    reveal_strlit(".epub");
    assert(stub + "."@ + "pdf"@ =~= stub + ".pdf"@);
    assert(stub + "."@ + "epub"@ =~= stub + ".epub"@);
}

/// What is to be done to open a file. It has to be there. Without a document file there is a
/// handle at once, for the file that is still to be created under the asset's ID. A document file
/// is opened for reading or for writing, as was asked, and cannot be opened for both; its path is
/// that of the asset's ID with the extension of its kind, whatever the access.
pub proof fn open_takes_the_document<R>(
    db: DbView,
    ino: u64,
    mode: OpenAccMode,
    r: Result<OpenStep<R>, Errno>,
)
    requires
        open_answer(db, ino, mode, r),
    ensures
        r == Err::<OpenStep<R>, Errno>(Errno::ENOENT) <==> !db.store.contains_key(ino),
        db.store.contains_key(ino) ==> {
            let dir = "/home/root/.local/share/remarkable/xochitl/"@;
            let id = hyphenated(db.store[ino].id);
            match db.store[ino].underlying {
                None => r matches Ok(OpenStep::Handle(fh)) && fh@
                    == (FileHandleView::<R>::Created { buf: Seq::empty(), stub: dir + id }),
                Some(kind) => {
                    &&& mode == OpenAccMode::ReadWrite <==> r == Err::<OpenStep<R>, Errno>(
                        Errno::ENOTSUP,
                    )
                    &&& mode != OpenAccMode::ReadWrite ==> {
                        &&& r matches Ok(OpenStep::Remote { path, access })
                        &&& access == RemoteAccess::Read <==> mode == OpenAccMode::ReadOnly
                        &&& access == RemoteAccess::Write <==> mode == OpenAccMode::WriteOnly
                        &&& kind == Underlying::Pdf ==> path@ == dir + id + ".pdf"@
                        &&& kind == Underlying::Epub ==> path@ == dir + id + ".epub"@
                    }
                },
            }
        },
{
    if db.store.contains_key(ino) {
        let id = hyphenated(db.store[ino].id);
        lemma_document_path(id);
        path_is_in_the_directory(id, id, "pdf"@);
    }
}

proof fn lemma_document_path(slug: Seq<char>)
    ensures
        path_of(with_ext(slug, "pdf"@)) == "/home/root/.local/share/remarkable/xochitl/"@ + slug
            + ".pdf"@,
        path_of(with_ext(slug, "epub"@)) == "/home/root/.local/share/remarkable/xochitl/"@ + slug
            + ".epub"@,
{
    let dir = "/home/root/.local/share/remarkable/xochitl/"@;
    path_is_in_the_directory(slug, slug, "pdf"@);
    path_is_in_the_directory(slug, slug, "epub"@);
    reveal_strlit(".");
    reveal_strlit("pdf");
    reveal_strlit("epub");
    reveal_strlit(".pdf");
    reveal_strlit(".epub");
    assert(dir + slug + "."@ + "pdf"@ =~= dir + slug + ".pdf"@);
    assert(dir + slug + "."@ + "epub"@ =~= dir + slug + ".epub"@);
}

/// Detection asks for the PDF first, then for the EPUB, at the paths beside the metadata file, and
/// asks for the size of a file where it found it.
pub proof fn detection_asks_beside_the_metadata(slug: Seq<char>, size: Option<u64>)
    ensures
        ({
            let dir = "/home/root/.local/share/remarkable/xochitl/"@;
            let pdf = dir + slug + ".pdf"@;
            let epub = dir + slug + ".epub"@;
            &&& Underlying::first_step(slug) == (DetectStepView::Exists {
                kind: Underlying::Pdf,
                path: pdf,
            })
            &&& Underlying::Pdf.step_after_exists(slug, true) == (DetectStepView::Size {
                kind: Underlying::Pdf,
                path: pdf,
            })
            &&& Underlying::Pdf.step_after_exists(slug, false) == (DetectStepView::Exists {
                kind: Underlying::Epub,
                path: epub,
            })
            &&& Underlying::Epub.step_after_exists(slug, true) == (DetectStepView::Size {
                kind: Underlying::Epub,
                path: epub,
            })
            &&& Underlying::Epub.step_after_exists(slug, false) == DetectStepView::Done(None)
            &&& match size {
                Some(n) => {
                    &&& Underlying::Pdf.step_after_size(size) == DetectStepView::Done(
                        Some((Underlying::Pdf, n)),
                    )
                    &&& Underlying::Epub.step_after_size(size) == DetectStepView::Done(
                        Some((Underlying::Epub, n)),
                    )
                },
                None => {
                    &&& Underlying::Pdf.step_after_size(size) == DetectStepView::Done(None)
                    &&& Underlying::Epub.step_after_size(size) == DetectStepView::Done(None)
                },
            }
        }),
{
    lemma_document_path(slug);
}

/// Opening a document, for reading or for writing, names the very path in the steps of the
/// detection that found its file, whichever of the two kinds it is.
pub proof fn open_names_the_detected_path<R>(
    db: DbView,
    ino: u64,
    kind: Underlying,
    mode: OpenAccMode,
    r: Result<OpenStep<R>, Errno>,
)
    requires
        db.store.contains_key(ino),
        db.store[ino].underlying == Some(kind),
        mode != OpenAccMode::ReadWrite,
        open_answer(db, ino, mode, r),
    ensures
        r matches Ok(OpenStep::Remote { path, access }) && {
            let slug = hyphenated(db.store[ino].id);
            &&& kind.step_after_exists(slug, true) == (DetectStepView::Size { kind, path: path@ })
            &&& kind == Underlying::Pdf ==> Underlying::first_step(slug)
                == (DetectStepView::Exists { kind, path: path@ })
            &&& kind == Underlying::Epub ==> Underlying::Pdf.step_after_exists(slug, false)
                == (DetectStepView::Exists { kind, path: path@ })
        },
{
}

/// The document that was found beside a metadata file when the database was built is the file
/// that is opened: there is a file at the path that is opened, and it has the size that was found.
pub proof fn opened_file_was_found<R>(
    entries: Seq<Entry>,
    db: Db,
    i: int,
    id: Seq<u8>,
    files: spec_fn(Seq<char>) -> Option<Option<u64>>,
    mode: OpenAccMode,
    r: Result<OpenStep<R>, Errno>,
)
    requires
        load_outcome(entry_views(entries), Ok::<Db, BuildError>(db)),
        0 <= i < entries.len(),
        id.len() == 16,
        entries[i].slug@ == hyphenated(id),
        entries[i].underlying == run_detect(
            Underlying::first_step(entries[i].slug@),
            entries[i].slug@,
            files,
            4,
        ),
        entries[i].underlying is Some,
        mode != OpenAccMode::ReadWrite,
        open_answer(db@, ino_of(id), mode, r),
    ensures
        r matches Ok(OpenStep::Remote { path, access }) && files(path@) == Some(
            Some((entries[i].underlying->0).1),
        ),
{
    reveal_with_fuel(run_detect, 5);
    hyphenated_round_trip(id);
    assert(db@.store.contains_key(ino_of(id))) by {
        entry_is_stored(entries, db, i, id);
    }
    built_from_file(entries, db, i, id, ino_of(id));
}

/// The asset of each metadata file is in a database that was built.
pub proof fn entry_is_stored(entries: Seq<Entry>, db: Db, i: int, id: Seq<u8>)
    requires
        load_outcome(entry_views(entries), Ok::<Db, BuildError>(db)),
        0 <= i < entries.len(),
        denotes(entries[i].slug@, id),
    ensures
        db@.store.contains_key(ino_of(id)),
{
    let es = entry_views(entries);
    loaded_holds_entries(es);
    parsed_iff_denotes(entries[i].slug@, id);
    assert(loaded(es).store.contains_key(es[i].ino()));
}

/// A directory entry is a metadata file exactly where it is a file and its name ends in
/// `.metadata`; what stands before that is the rest of its name. An entry is read at its own path.
pub proof fn metadata_files_by_name(file_name: Seq<char>, slug: Seq<char>)
    ensures
        slug_of(file_name, true) == Some(slug) <==> file_name == slug + ".metadata"@,
        slug_of(file_name, false) is None,
        file_name.len() == 0 || file_name[0] != '/' ==> entry_path(file_name)
            == "/home/root/.local/share/remarkable/xochitl/"@ + file_name,
        file_name.len() > 0 && file_name[0] == '/' ==> entry_path(file_name) == file_name,
{
    stripped_is_the_rest(file_name, ".metadata"@, slug);
    path_is_in_the_directory(file_name, file_name, file_name);
}

/// The steps and handles that are handed out stand for what they hold.
pub proof fn steps_hold_what_they_say<R>(step: DetectStep, fh: FileHandle<R>, file: R)
    ensures
        match step {
            DetectStep::Exists { kind, path } => step@ == (DetectStepView::Exists {
                kind,
                path: path@,
            }),
            DetectStep::Size { kind, path } => step@ == (DetectStepView::Size {
                kind,
                path: path@,
            }),
            DetectStep::Done(found) => step@ == DetectStepView::Done(found),
        },
        fh == FileHandle::Remote(file) ==> fh@ == FileHandleView::Remote(file),
        fh is Created ==> fh@ is Created,
{
}

/// A new file is a plain document without content, with the name and the ID that it was given.
pub proof fn new_file_is_plain(parent: Seq<char>, name: Seq<char>, id: Seq<u8>)
    ensures
        ({
            let child = new_asset(parent, name, id);
            &&& child.id == id
            &&& child.md.visible_name == name
            &&& child.md.parent == parent
            &&& child.md.doc_type == "DocumentType"@
            &&& child.md.last_modified == "0"@
            &&& child.md.version == 0
            &&& !child.md.deleted && !child.md.metadata_modified
            &&& !child.md.pinned && !child.md.synced
            &&& child.children.len() == 0
            &&& child.underlying is None
            &&& child.size_on_disk == 0
        }),
{
}

/// The parent field of a new file is empty in the root directory; under an asset it is the text
/// of that asset's ID, from which that ID is read. There is none for what does not exist.
pub proof fn parent_field_names_the_directory(db: DbView, p: u64)
    ensures
        db.parent_field(DbPointer::Root) == Some(""@),
        db.parent_field(DbPointer::INode { id: p }) is Some <==> db.store.contains_key(p),
        db.store.contains_key(p) && db.store[p].id.len() == 16 ==> denotes(
            db.parent_field(DbPointer::INode { id: p })->0,
            db.store[p].id,
        ),
        db.store.contains_key(p) ==> db.parent_field(DbPointer::INode { id: p })->0.len() == 36,
{
    if db.store.contains_key(p) && db.store[p].id.len() == 16 {
        hyphenated_round_trip(db.store[p].id);
    }
}

/// Creating a file adds that file and nothing else: it is listed last in its directory, and every
/// other asset and every other list is as it was.
pub proof fn new_file_adds_itself_alone(db: DbView, ptr: DbPointer, child: AssetView, k: u64)
    requires
        db.contains(ptr),
        !db.store.contains_key(ino_of(child.id)),
        db.store.contains_key(k),
    ensures
        ({
            let ino = ino_of(child.id);
            let after = db.stored(child).listed(ptr, ino);
            &&& after.store.dom() == db.store.dom().insert(ino)
            &&& after.store[ino] == child
            &&& after.trash == db.trash
            &&& after.root == if ptr == DbPointer::Root {
                db.root.push(ino)
            } else {
                db.root
            }
            &&& after.store[k].md == db.store[k].md
            &&& after.store[k].id == db.store[k].id
            &&& after.store[k].underlying == db.store[k].underlying
            &&& after.store[k].size_on_disk == db.store[k].size_on_disk
            &&& after.store[k].children == if ptr == (DbPointer::INode { id: k }) {
                db.store[k].children.push(ino)
            } else {
                db.store[k].children
            }
        }),
{
    let ino = ino_of(child.id);
    assert(db.stored(child).listed(ptr, ino).store.dom() =~= db.store.dom().insert(ino));
}

/// Whether `attr` are the attributes of the directory or the plain file `ino`, whatever its size.
pub open spec fn attributes_match(
    attr: FileAttr,
    ino: u64,
    directory: bool,
    uid: u32,
    gid: u32,
) -> bool {
    &&& attr.ino == ino
    &&& attr.kind == FileType::Directory <==> directory
    &&& attr.perm == 0o770 <==> directory
    &&& attr.perm == 0o660 <==> !directory
    &&& attr.uid == uid
    &&& attr.gid == gid
    &&& attr.blksize == 4096
    &&& attr.blocks == 0 && attr.nlink == 0 && attr.rdev == 0 && attr.flags == 0
    &&& attr.atime == 0 && attr.mtime == 0 && attr.ctime == 0 && attr.crtime == 0
}

/// The answers to a creation that failed.
pub proof fn creation_errors(e: TabletSftpError)
    ensures
        NewFileError::CantResolveParent.code() == Errno::EINVAL,
        NewFileError::TransportError(e).code() == Errno::EIO,
{
}

} // verus!
