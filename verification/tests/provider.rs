use rmd::errno::Errno;
use rmd::fuse_provider::fh::{CreateOutcome, FileHandle, ReadPlan, WriteStep};
use rmd::fuse_provider::listing::{DirEntry, Listing, ListingStep};
use rmd::fuse_provider::tablet::{
    Db, DbPointer, Entry, FileType, Metadata, NewFileError, OpenStep, TabletSftpError, Underlying,
};
use rmd::fuse_provider::FuseProvider;
use rmd::ident::{uuid_to_ino, Uuid};

fn id(n: u8) -> String {
    format!("{:02x}000000-0000-0000-0000-000000000000", n)
}

fn entry(n: u8, name: &str, parent: &str, collection: bool) -> Entry {
    Entry {
        slug: id(n),
        md: Metadata {
            deleted: false,
            last_modified: "1".to_string(),
            metadata_modified: false,
            parent: parent.to_string(),
            pinned: false,
            synced: true,
            doc_type: if collection { "CollectionType" } else { "DocumentType" }.to_string(),
            version: 3,
            visible_name: name.to_string(),
        },
        underlying: if n % 2 == 1 { Some((Underlying::Pdf, n as u64 * 100)) } else { None },
    }
}

fn provider() -> FuseProvider<u8> {
    let entries = vec![
        entry(8, "h", "", false),
        entry(2, "folder", "", true),
        entry(3, "paper", &id(2), false),
        entry(5, "e", "", false),
        entry(9, "i", "", false),
        entry(4, "d", "", false),
        entry(6, "old", "trash", false),
    ];
    match Db::build(entries) {
        Ok(db) => FuseProvider::new(db, 1000, 100),
        Err(e) => panic!("{:?}", e),
    }
}

fn sent(l: &Listing, room: usize) -> (Vec<u64>, Option<Errno>) {
    let mut out = Vec::new();
    let mut full = false;
    loop {
        match l.step(out.len(), full) {
            ListingStep::Add(e) => {
                out.push(e.offset);
                full = out.len() == room;
            }
            ListingStep::Done => return (out, None),
            ListingStep::Fail(e) => return (out, Some(e)),
        }
    }
}

#[test]
fn access_to_what_exists() {
    let p = provider();
    assert_eq!(p.access(1), Ok(()));
    assert_eq!(p.access(3), Ok(()));
    assert_eq!(p.access(7), Err(Errno::ENOENT));
}

#[test]
fn attributes_of_what_exists() {
    let p = provider();
    let attr = p.getattr(3).unwrap();
    assert_eq!((attr.ino, attr.size, attr.uid, attr.gid), (3, 300, 1000, 100));
    assert_eq!(p.getattr(1).unwrap().kind, FileType::Directory);
    assert_eq!(p.getattr(7), Err(Errno::ENOENT));
}

#[test]
fn listing_is_in_increasing_order() {
    let p = provider();
    let l = p.readdir(1, 0).ok().unwrap();
    assert!(!l.broken);
    let got: Vec<(u64, u64, &str)> =
        l.entries.iter().map(|e| (e.ino, e.offset, e.name.as_str())).collect();
    assert_eq!(
        got,
        vec![(1, 2, "folder"), (1, 4, "d"), (1, 5, "e"), (1, 8, "h"), (1, 9, "i")]
    );
    assert!(l.entries.iter().all(|e| e.kind == FileType::RegularFile));
}

#[test]
fn listing_of_a_folder() {
    let p = provider();
    let l = p.readdir(2, 0).ok().unwrap();
    assert_eq!(l.entries.len(), 1);
    assert_eq!((l.entries[0].ino, l.entries[0].offset), (2, 3));
    assert!(matches!(p.readdir(3, 0), Err(Errno::ENOTDIR)));
    assert!(matches!(p.readdir(7, 0), Err(Errno::ENOENT)));
}

#[test]
fn resumed_listing_is_complete() {
    let p = provider();
    for room in 1..7 {
        let mut all = Vec::new();
        let mut offset = 0;
        loop {
            let l = p.readdir(1, offset).ok().unwrap();
            let (part, failure) = sent(&l, room);
            assert_eq!(failure, None);
            if part.is_empty() {
                break;
            }
            offset = *part.last().unwrap();
            all.extend(part);
        }
        assert_eq!(all, vec![2, 4, 5, 8, 9]);
    }
}

#[test]
fn nothing_is_sent_twice() {
    let mut p = provider();
    let (first, _) = sent(&p.readdir(1, 0).ok().unwrap(), 3);
    assert_eq!(first, vec![2, 4, 5]);
    for n in [7u8, 3u8] {
        let slug = format!("{:02x}000000-0000-4000-8000-000000000000", n);
        let child = p
            .tablet_db
            .new_file_with_id(DbPointer::Root, "new", Uuid::parse(&slug).unwrap())
            .ok()
            .unwrap();
        assert!(p.mknod_written(1, child, Ok(())).is_ok());
    }
    let (second, _) = sent(&p.readdir(1, 5).ok().unwrap(), 100);
    assert!(second.iter().all(|k| !first.contains(k)));
    assert_eq!(&second[..2], &[8, 9]);
    assert_eq!(second.len(), 4);
}

#[test]
fn broken_listing_fails_at_its_end() {
    let l = Listing {
        entries: vec![DirEntry {
            ino: 1,
            offset: 2,
            kind: FileType::RegularFile,
            name: "a".to_string(),
        }],
        broken: true,
    };
    assert_eq!(sent(&l, 10), (vec![2], Some(Errno::ENOENT)));
    assert_eq!(sent(&l, 1), (vec![2], None));
}

#[test]
fn unknown_children_break_a_listing() {
    let p = provider();
    let l = Listing::of(&p.tablet_db, 1, &[9, 7, 2], 0);
    assert!(l.broken);
    assert_eq!(sent(&l, 10), (vec![2], Some(Errno::ENOENT)));
}

#[test]
fn lookup_by_name() {
    let p = provider();
    assert_eq!(p.lookup(1, Some("h")).unwrap().ino, 8);
    assert_eq!(p.lookup(2, Some("paper")).unwrap().size, 300);
    assert_eq!(p.lookup(1, Some("paper")), Err(Errno::ENOENT));
    assert_eq!(p.lookup(1, Some("old")), Err(Errno::ENOENT));
    assert_eq!(p.lookup(1, None), Err(Errno::ENOENT));
    assert_eq!(p.lookup(3, Some("x")), Err(Errno::ENOTDIR));
    assert_eq!(p.lookup(7, Some("x")), Err(Errno::ENOENT));
}

#[test]
fn listed_names_are_found() {
    let p = provider();
    for e in p.readdir(1, 0).ok().unwrap().entries {
        assert_eq!(p.lookup(1, Some(&e.name)).unwrap().ino, e.offset);
    }
}

#[test]
fn mknod_makes_a_file_that_is_found() {
    let mut p = provider();
    let child = p.mknod(2, Some("fresh")).ok().unwrap();
    assert_eq!(child.md.parent, id(2));
    let ino = uuid_to_ino(child.id);
    let attr = p.mknod_written(2, child, Ok(())).unwrap();
    assert_eq!((attr.ino, attr.size, attr.perm), (ino, 0, 0o660));
    assert_eq!(p.lookup(2, Some("fresh")), Ok(attr));
    assert_eq!(p.getattr(ino), Ok(attr));
    assert_eq!(p.lookup(2, Some("paper")).unwrap().ino, 3);
    assert_eq!(p.lookup(1, Some("fresh")), Err(Errno::ENOENT));
}

#[test]
fn mknod_refusals() {
    let mut p = provider();
    assert!(matches!(p.mknod(1, None), Err(Errno::EINVAL)));
    assert!(matches!(p.mknod(7, Some("x")), Err(Errno::EINVAL)));
    for e in [
        TabletSftpError::IO,
        TabletSftpError::TransportError,
        TabletSftpError::SerializationFailure,
    ] {
        let child = p.mknod(1, Some("fresh")).ok().unwrap();
        let ino = uuid_to_ino(child.id);
        assert_eq!(p.mknod_written(1, child, Err(e)), Err(Errno::EIO));
        assert_eq!(p.access(ino), Err(Errno::ENOENT));
        assert_eq!(NewFileError::TransportError(e).errno(), Errno::EIO);
    }
    let child = p.mknod(1, Some("fresh")).ok().unwrap();
    assert_eq!(p.mknod_written(7, child, Ok(())), Err(Errno::EINVAL));
    assert_eq!(NewFileError::CantResolveParent.errno(), Errno::EINVAL);
}

#[test]
fn a_new_file_is_written() {
    let mut p = provider();
    let child = p.mknod(1, Some("fresh")).ok().unwrap();
    let ino = p.mknod_written(1, child, Ok(())).unwrap().ino;
    let handle = match p.open(ino, 1) {
        Ok(OpenStep::Handle(h)) => h,
        _ => panic!("there is no handle"),
    };
    let fh = p.opened(handle);
    assert_eq!(fh, 0);
    assert_eq!(p.read(fh, 0, 1), Err(Errno::EBADF));
    assert!(matches!(p.write(fh, 0, b"%PD"), WriteStep::Buffered(Ok(3))));
    assert!(matches!(p.write(fh, 3, b"F-1"), WriteStep::Create { .. }));
    assert_eq!(p.write_created(fh, CreateOutcome::CreateFailed, 3), Err(Errno::EIO));
    assert_eq!(p.write_created(fh, CreateOutcome::Created(7), 3), Ok(3));
    assert!(matches!(p.write(fh, 6, b"x"), WriteStep::Forward { offset: 6 }));
    assert_eq!(p.read(fh, 2, 5), Ok(ReadPlan { offset: 2, len: 5 }));
    assert!(matches!(p.release(fh), FileHandle::Remote(7)));
    assert!(!p.file_handles.contains(fh));
    assert_eq!(FuseProvider::<u8>::released(true), Ok(()));
    assert_eq!(FuseProvider::<u8>::released(false), Err(Errno::EIO));
}

#[test]
fn open_remote_document() {
    let mut p = provider();
    assert!(matches!(p.open(3, 0), Ok(OpenStep::Remote { .. })));
    assert!(matches!(p.open(3, 2), Err(Errno::ENOTSUP)));
    assert!(matches!(p.open(7, 0), Err(Errno::ENOENT)));
    assert!(matches!(p.open(1, 0), Err(Errno::ENOENT)));
    let a = p.opened(FileHandle::Remote(1));
    let b = p.opened(FileHandle::Remote(2));
    assert_eq!((a, b), (0, 1));
    p.release(a);
    assert_eq!(p.opened(FileHandle::Remote(3)), a);
}
