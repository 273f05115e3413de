use rmd::errno::Errno;
use rmd::fuse_provider::detect::{listed_path, metadata_slug, DetectStep};
use rmd::fuse_provider::fh::{FileHandle, OpenAccMode, RemoteAccess, WriteStep};
use rmd::fuse_provider::tablet::{
    BuildError, Db, DbPointer, Entry, FileAttr, FileType, Loading, Metadata, NewFileError,
    OpenStep, Underlying,
};
use rmd::ident::{uuid_to_ino, Uuid};
use rmd::text::XOCHITL_PATH;

const FOLDER: &str = "02000000-0000-0000-0000-000000000000";
const PDF: &str = "03000000-0000-0000-0000-000000000000";
const EPUB: &str = "04000000-0000-0000-0000-000000000000";
const EMPTY: &str = "05000000-0000-0000-0000-000000000000";
const TRASHED: &str = "06000000-0000-0000-0000-000000000000";

fn metadata(name: &str, parent: &str, collection: bool) -> Metadata {
    Metadata {
        deleted: false,
        last_modified: "1".to_string(),
        metadata_modified: false,
        parent: parent.to_string(),
        pinned: false,
        synced: true,
        doc_type: if collection { "CollectionType" } else { "DocumentType" }.to_string(),
        version: 3,
        visible_name: name.to_string(),
    }
}

fn entry(slug: &str, md: Metadata, underlying: Option<(Underlying, u64)>) -> Entry {
    Entry { slug: slug.to_string(), md, underlying }
}

fn sample() -> Vec<Entry> {
    vec![
        entry(PDF, metadata("paper", FOLDER, false), Some((Underlying::Pdf, 1234))),
        entry(FOLDER, metadata("folder", "", true), None),
        entry(EPUB, metadata("book", FOLDER, false), Some((Underlying::Epub, 99))),
        entry(EMPTY, metadata("empty", "", false), None),
        entry(TRASHED, metadata("old", "trash", false), None),
    ]
}

fn built(entries: Vec<Entry>) -> Db {
    match Db::build(entries) {
        Ok(db) => db,
        Err(e) => panic!("{:?}", e),
    }
}

fn failed(entries: Vec<Entry>) -> BuildError {
    match Db::build(entries) {
        Ok(_) => panic!("the database was built"),
        Err(e) => e,
    }
}

fn sorted(db: &Db, ptr: DbPointer) -> Vec<u64> {
    let mut children = db.get_children(ptr).unwrap().to_vec();
    children.sort();
    children
}

#[test]
fn assets_are_listed_where_they_belong() {
    let db = built(sample());
    assert_eq!(sorted(&db, DbPointer::Root), vec![2, 5]);
    assert_eq!(sorted(&db, DbPointer::INode { id: 2 }), vec![3, 4]);
    assert_eq!(db.get_children(DbPointer::INode { id: 3 }), Err(Errno::ENOTDIR));
    assert_eq!(db.get_children(DbPointer::INode { id: 9 }), Err(Errno::ENOENT));
}

#[test]
fn trashed_assets_are_in_no_directory() {
    let db = built(sample());
    assert!(db.contains(DbPointer::INode { id: 6 }));
    assert!(!db.get_children(DbPointer::Root).unwrap().contains(&6));
    assert!(!db.get_children(DbPointer::INode { id: 2 }).unwrap().contains(&6));
}

#[test]
fn order_of_entries_is_irrelevant() {
    let mut entries = sample();
    entries.reverse();
    let db = built(entries);
    assert_eq!(sorted(&db, DbPointer::Root), vec![2, 5]);
    assert_eq!(sorted(&db, DbPointer::INode { id: 2 }), vec![3, 4]);
}

#[test]
fn empty_database_holds_the_root() {
    let db = Db::default();
    assert!(db.contains(DbPointer::Root));
    assert!(!db.contains(DbPointer::INode { id: 1 }));
    assert_eq!(db.get_children(DbPointer::Root).unwrap(), &[] as &[u64]);
    assert!(built(Vec::new()).contains(DbPointer::Root));
}

#[test]
fn attributes() {
    let db = built(sample());
    let root = FileAttr {
        ino: 1,
        size: 0,
        blocks: 0,
        atime: 0,
        mtime: 0,
        ctime: 0,
        crtime: 0,
        kind: FileType::Directory,
        perm: 0o770,
        nlink: 0,
        uid: 1000,
        gid: 100,
        rdev: 0,
        blksize: 4096,
        flags: 0,
    };
    assert_eq!(db.get_attr_for(DbPointer::Root, 1000, 100), Some(root));
    assert_eq!(
        db.get_attr_for(DbPointer::INode { id: 2 }, 1000, 100),
        Some(FileAttr { ino: 2, ..root })
    );
    assert_eq!(
        db.get_attr_for(DbPointer::INode { id: 3 }, 1000, 100),
        Some(FileAttr { ino: 3, size: 1234, kind: FileType::RegularFile, perm: 0o660, ..root })
    );
    assert_eq!(
        db.get_attr_for(DbPointer::INode { id: 5 }, 1, 2),
        Some(FileAttr {
            ino: 5,
            kind: FileType::RegularFile,
            perm: 0o660,
            uid: 1,
            gid: 2,
            ..root
        })
    );
    assert_eq!(db.get_attr_for(DbPointer::INode { id: 9 }, 1000, 100), None);
}

#[test]
fn metadata_and_ids() {
    let db = built(sample());
    assert_eq!(db.get_metadata(4).unwrap().visible_name, "book");
    assert!(db.get_metadata(7).is_none());
    let mut bytes = [0; 16];
    bytes[0] = 4;
    assert_eq!(db.get_uuid(4).unwrap().bytes, bytes);
    assert!(db.get_uuid(7).is_none());
}

#[test]
fn invalid_id() {
    assert!(matches!(
        failed(vec![entry("notes", metadata("a", "", false), None)]),
        BuildError::InvalidId
    ));
}

#[test]
fn duplicate_id() {
    let later = "02000000-0000-0000-ffff-000000000000";
    let e = failed(vec![
        entry(FOLDER, metadata("a", "", false), None),
        entry(later, metadata("b", "", false), None),
    ]);
    match e {
        BuildError::DuplicateId(id) => assert_eq!(id.bytes, Uuid::parse(later).unwrap().bytes),
        e => panic!("{:?}", e),
    }
}

#[test]
fn invalid_parent() {
    match failed(vec![entry(FOLDER, metadata("a", "Trash", false), None)]) {
        BuildError::InvalidParent(s) => assert_eq!(s, "Trash"),
        e => panic!("{:?}", e),
    }
}

#[test]
fn missing_parent() {
    match failed(vec![entry(PDF, metadata("a", FOLDER, false), None)]) {
        BuildError::MissingParent(ino) => assert_eq!(ino, 2),
        e => panic!("{:?}", e),
    }
}

#[test]
fn parent_in_another_form() {
    let db = built(vec![
        entry(FOLDER, metadata("folder", "", true), None),
        entry(PDF, metadata("a", "02000000000000000000000000000000", false), None),
    ]);
    assert_eq!(sorted(&db, DbPointer::INode { id: 2 }), vec![3]);
}

#[test]
fn pushing_twice_replaces() {
    let mut db = Db::default();
    let id = Uuid::parse(FOLDER).unwrap();
    assert!(db.push(id, metadata("a", "", true), None, 0).is_ok());
    assert!(matches!(
        db.push(id, metadata("b", "", true), Some(Underlying::Pdf), 5),
        Err(BuildError::DuplicateId(_))
    ));
    assert_eq!(db.get_metadata(2).unwrap().visible_name, "b");
    assert_eq!(db.get_children(DbPointer::Root).unwrap().len(), 0);
    assert!(db.fixup_parentage().is_ok());
    assert_eq!(db.get_children(DbPointer::Root).unwrap(), &[2]);
}

#[test]
fn linking_stops_at_the_first_failure() {
    let mut db = Db::default();
    assert!(db.push(Uuid::parse(FOLDER).unwrap(), metadata("a", "", true), None, 0).is_ok());
    assert!(db.push(Uuid::parse(PDF).unwrap(), metadata("b", "?", false), None, 0).is_ok());
    assert!(db.push(Uuid::parse(EPUB).unwrap(), metadata("c", "", false), None, 0).is_ok());
    assert!(matches!(db.link(&vec![2, 3, 4]), Err(BuildError::InvalidParent(_))));
    assert_eq!(db.get_children(DbPointer::Root).unwrap(), &[2]);
}

#[test]
fn new_file_in_the_root() {
    let db = built(sample());
    let child = match db.new_file(DbPointer::Root, "fresh") {
        Ok(child) => child,
        Err(e) => panic!("{:?}", e),
    };
    assert_eq!(child.md.visible_name, "fresh");
    assert_eq!(child.md.parent, "");
    assert_eq!(child.md.doc_type, "DocumentType");
    assert_eq!(child.md.last_modified, "0");
    assert_eq!(child.md.version, 0);
    assert!(!child.md.deleted && !child.md.metadata_modified && !child.md.pinned);
    assert!(!child.md.synced);
    assert_eq!(child.size_on_disk, 0);
    assert!(child.underlying.is_none() && child.children.is_empty());
    assert_eq!(child.id.bytes[6] >> 4, 4);
    assert_eq!(child.id.bytes[8] >> 6, 2);
    assert_ne!(uuid_to_ino(child.id), 1);
}

#[test]
fn random_ids_differ() {
    let db = Db::default();
    let a = db.new_file(DbPointer::Root, "a").ok().unwrap();
    let b = db.new_file(DbPointer::Root, "a").ok().unwrap();
    assert_ne!(a.id.bytes, b.id.bytes);
}

#[test]
fn new_file_in_a_folder_is_listed() {
    let mut db = built(sample());
    let child = db.new_file(DbPointer::INode { id: 2 }, "fresh").ok().unwrap();
    assert_eq!(child.md.parent, FOLDER);
    let ino = uuid_to_ino(child.id);
    assert_eq!(db.add_file(DbPointer::INode { id: 2 }, child), Ok(ino));
    assert_eq!(*db.get_children(DbPointer::INode { id: 2 }).unwrap().last().unwrap(), ino);
    assert_eq!(db.get_children(DbPointer::INode { id: 2 }).unwrap().len(), 3);
    assert_eq!(sorted(&db, DbPointer::Root), vec![2, 5]);
    assert_eq!(db.get_metadata(3).unwrap().visible_name, "paper");
}

#[test]
fn new_file_without_parent() {
    let mut db = built(sample());
    assert!(matches!(
        db.new_file(DbPointer::INode { id: 9 }, "fresh"),
        Err(NewFileError::CantResolveParent)
    ));
    let child = db.new_file(DbPointer::Root, "fresh").ok().unwrap();
    assert_eq!(
        db.add_file(DbPointer::INode { id: 9 }, child),
        Err(NewFileError::CantResolveParent)
    );
}

#[test]
fn files_of_a_new_asset() {
    let db = built(sample());
    let id = Uuid::parse("0f1e2d3c-4b5a-6978-8796-a5b4c3d2e1f0").unwrap();
    let child = db.new_file_with_id(DbPointer::Root, "fresh", id).ok().unwrap();
    let files = db.init_file(&child);
    assert_eq!(
        files.content_path,
        "/home/root/.local/share/remarkable/xochitl/0f1e2d3c-4b5a-6978-8796-a5b4c3d2e1f0.content"
    );
    assert_eq!(files.content, b"{}");
    assert_eq!(files.metadata.visible_name, "fresh");
    assert_eq!(files.metadata.parent, "");
    assert_eq!(files.metadata.doc_type, "DocumentType");
    assert_eq!(files.metadata.last_modified, "0");
    assert_eq!(
        files.metadata_path,
        "/home/root/.local/share/remarkable/xochitl/0f1e2d3c-4b5a-6978-8796-a5b4c3d2e1f0.metadata"
    );
}

#[test]
fn new_file_survives_rebuild() {
    for place in 0..6 {
        let mut db = built(sample());
        let child = db.new_file(DbPointer::INode { id: 2 }, "fresh").ok().unwrap();
        let ino = uuid_to_ino(child.id);
        let path = db.init_file(&child).metadata_path;
        let file_name = path.strip_prefix("/home/root/.local/share/remarkable/xochitl/").unwrap();
        let slug = metadata_slug(file_name, true).unwrap();
        assert_eq!(listed_path(file_name), path);
        let md = metadata(&child.md.visible_name, &child.md.parent, false);
        let mut entries = sample();
        entries.insert(place, Entry { slug, md, underlying: None });
        assert_eq!(db.add_file(DbPointer::INode { id: 2 }, child), Ok(ino));

        let rebuilt = built(entries);
        for ptr in [DbPointer::Root, DbPointer::INode { id: 2 }] {
            assert_eq!(sorted(&rebuilt, ptr), sorted(&db, ptr));
        }
        for k in [2, 3, 4, 5, 6, ino] {
            let ptr = DbPointer::INode { id: k };
            assert_eq!(rebuilt.get_attr_for(ptr, 1, 2), db.get_attr_for(ptr, 1, 2));
            assert_eq!(
                rebuilt.get_metadata(k).unwrap().visible_name,
                db.get_metadata(k).unwrap().visible_name
            );
        }
    }
}

#[test]
fn loading_one_by_one() {
    assert!(matches!(Loading::id_of("notes"), Err(BuildError::InvalidId)));
    assert_eq!(Loading::id_of(FOLDER).ok().unwrap().bytes[0], 2);
    let mut loading = Loading::new();
    for e in sample() {
        loading = match loading.add(e) {
            Ok(next) => next,
            Err(e) => panic!("{:?}", e),
        };
    }
    let db = loading.finish().ok().unwrap();
    assert_eq!(sorted(&db, DbPointer::Root), vec![2, 5]);
}

#[test]
fn loading_stops_at_a_bad_entry() {
    assert!(matches!(
        Loading::new().add(entry("notes", metadata("a", "", false), None)),
        Err(BuildError::InvalidId)
    ));
    let one = Loading::new().add(entry(PDF, metadata("a", FOLDER, false), None)).ok().unwrap();
    assert!(matches!(
        one.add(entry(PDF, metadata("b", "", false), None)),
        Err(BuildError::DuplicateId(_))
    ));
    let one = Loading::new().add(entry(PDF, metadata("a", FOLDER, false), None)).ok().unwrap();
    assert!(matches!(one.finish(), Err(BuildError::MissingParent(2))));
}

#[test]
fn opening_documents() {
    let db = built(sample());
    match db.open_file::<u8>(3, 0) {
        Ok(OpenStep::Remote { path, access }) => {
            assert_eq!(path, format!("{}/{}.pdf", XOCHITL_PATH, PDF));
            assert_eq!(access, RemoteAccess::Read);
        }
        _ => panic!("the file is not opened"),
    }
    match db.open_file::<u8>(4, 1) {
        Ok(OpenStep::Remote { path, access }) => {
            assert_eq!(path, format!("{}/{}.epub", XOCHITL_PATH, EPUB));
            assert_eq!(access, RemoteAccess::Write);
        }
        _ => panic!("the file is not opened"),
    }
    assert!(matches!(db.open_file::<u8>(3, 2), Err(Errno::ENOTSUP)));
    assert!(matches!(db.open_file::<u8>(9, 0), Err(Errno::ENOENT)));
}

fn asked_for(db: &Db, flags: i32) -> OpenAccMode {
    match db.open_file::<u8>(3, flags) {
        Ok(OpenStep::Remote { access: RemoteAccess::Read, .. }) => OpenAccMode::ReadOnly,
        Ok(OpenStep::Remote { access: RemoteAccess::Write, .. }) => OpenAccMode::WriteOnly,
        Err(Errno::ENOTSUP) => OpenAccMode::ReadWrite,
        _ => panic!("no access mode"),
    }
}

#[test]
fn access_modes_of_flags() {
    let db = built(sample());
    assert_eq!(asked_for(&db, 0), OpenAccMode::ReadOnly);
    assert_eq!(asked_for(&db, 1), OpenAccMode::WriteOnly);
    assert_eq!(asked_for(&db, 2), OpenAccMode::ReadWrite);
    assert_eq!(asked_for(&db, 3), OpenAccMode::ReadOnly);
    assert_eq!(asked_for(&db, 0x8000), OpenAccMode::ReadOnly);
    assert_eq!(asked_for(&db, 0x8001), OpenAccMode::WriteOnly);
    assert_eq!(asked_for(&db, -2 & !0o10000000), OpenAccMode::ReadWrite);
}

#[test]
fn opening_in_a_mode() {
    let db = built(sample());
    assert!(matches!(
        db.open_file_as::<u8>(3, OpenAccMode::ReadOnly),
        Ok(OpenStep::Remote { access: RemoteAccess::Read, .. })
    ));
    assert!(matches!(
        db.open_file_as::<u8>(4, OpenAccMode::WriteOnly),
        Ok(OpenStep::Remote { access: RemoteAccess::Write, .. })
    ));
    assert!(matches!(db.open_file_as::<u8>(4, OpenAccMode::ReadWrite), Err(Errno::ENOTSUP)));
    assert!(matches!(
        db.open_file_as::<u8>(5, OpenAccMode::ReadWrite),
        Ok(OpenStep::Handle(FileHandle::Created(_)))
    ));
    assert!(matches!(db.open_file_as::<u8>(9, OpenAccMode::ReadOnly), Err(Errno::ENOENT)));
}

#[test]
fn opening_a_document_without_content() {
    let db = built(sample());
    let mut fh: FileHandle<u8> = match db.open_file(5, 2) {
        Ok(OpenStep::Handle(fh)) => fh,
        _ => panic!("there is no handle"),
    };
    match fh.write(0, b"%PDF-") {
        WriteStep::Create { path, content } => {
            assert_eq!(path, format!("{}/{}.pdf", XOCHITL_PATH, EMPTY));
            assert_eq!(content, b"%PDF-");
            assert!(matches!(
                Underlying::detect(EMPTY),
                DetectStep::Exists { kind: Underlying::Pdf, path: p } if p == path
            ));
        }
        _ => panic!("no file is created"),
    }
}

#[test]
fn extensions() {
    assert_eq!(Underlying::Pdf.ext(), "pdf");
    assert_eq!(Underlying::Epub.ext(), "epub");
}

#[test]
fn metadata_files_are_found() {
    assert_eq!(metadata_slug("abc.metadata", true), Some("abc".to_string()));
    assert_eq!(metadata_slug(".metadata", true), Some(String::new()));
    assert_eq!(metadata_slug("a.metadata.metadata", true), Some("a.metadata".to_string()));
    assert_eq!(metadata_slug("\u{e9}\u{4e2d}.metadata", true), Some("\u{e9}\u{4e2d}".to_string()));
    assert_eq!(metadata_slug("abc.metadata", false), None);
    assert_eq!(metadata_slug("abc.content", true), None);
    assert_eq!(metadata_slug("metadata", true), None);
    assert_eq!(metadata_slug("", true), None);
}

#[test]
fn paths_of_entries() {
    assert_eq!(
        listed_path("abc.metadata"),
        "/home/root/.local/share/remarkable/xochitl/abc.metadata"
    );
    assert_eq!(listed_path("/abc.metadata"), "/abc.metadata");
    assert_eq!(listed_path(""), "/home/root/.local/share/remarkable/xochitl/");
}

fn detected(slug: &str, pdf: Option<Option<u64>>, epub: Option<Option<u64>>) -> Option<(Underlying, u64)> {
    let mut step = Underlying::detect(slug);
    for _ in 0..4 {
        step = match step {
            DetectStep::Exists { kind, path } => {
                assert_eq!(path, format!("{}/{}.{}", XOCHITL_PATH, slug, kind.ext()));
                let there = if kind == Underlying::Pdf { pdf.is_some() } else { epub.is_some() };
                kind.detect_exists(slug, there)
            }
            DetectStep::Size { kind, path } => {
                assert_eq!(path, format!("{}/{}.{}", XOCHITL_PATH, slug, kind.ext()));
                let size = if kind == Underlying::Pdf { pdf } else { epub };
                kind.detect_size(size.unwrap())
            }
            DetectStep::Done(found) => return found,
        };
    }
    panic!("no end");
}

#[test]
fn pdf_goes_first() {
    assert_eq!(detected("x", Some(Some(7)), Some(Some(8))), Some((Underlying::Pdf, 7)));
    assert_eq!(detected("x", Some(Some(7)), None), Some((Underlying::Pdf, 7)));
    assert_eq!(detected("x", None, Some(Some(8))), Some((Underlying::Epub, 8)));
    assert_eq!(detected("x", Some(None), Some(Some(8))), None);
    assert_eq!(detected("x", None, Some(None)), None);
    assert_eq!(detected("x", None, None), None);
}
