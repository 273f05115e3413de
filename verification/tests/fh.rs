use rmd::errno::Errno;
use rmd::fuse_provider::fh::{
    CreateOutcome, FileHandle, ForwardOutcome, OpenAccMode, ReadOutcome, ReadPlan,
    RemoteAccess, WriteStep, EPUB_MAGIC_NUMBER, PDF_MAGIC_NUMBER,
};

const STUB: &str = "0f1e2d3c-4b5a-6978-8796-a5b4c3d2e1f0";

fn created(step: WriteStep) -> (String, Vec<u8>) {
    match step {
        WriteStep::Create { path, content } => (path, content),
        _ => panic!("no file is created"),
    }
}

#[test]
fn access_of_remote_files() {
    assert_eq!(FileHandle::<u8>::open(OpenAccMode::ReadOnly), Ok(RemoteAccess::Read));
    assert_eq!(FileHandle::<u8>::open(OpenAccMode::WriteOnly), Ok(RemoteAccess::Write));
    assert_eq!(FileHandle::<u8>::open(OpenAccMode::ReadWrite), Err(Errno::ENOTSUP));
}

#[test]
fn opened_or_not() {
    assert!(matches!(FileHandle::opened(Some(4u8)), Ok(FileHandle::Remote(4))));
    assert!(matches!(FileHandle::<u8>::opened(None), Err(Errno::EBADMSG)));
}

#[test]
fn reading() {
    let remote = FileHandle::Remote(1u8);
    assert_eq!(remote.read(7, 9), Ok(ReadPlan { offset: 7, len: 9 }));
    let fresh: FileHandle<u8> = FileHandle::create(STUB);
    assert_eq!(fresh.read(0, 1), Err(Errno::EBADF));
    assert_eq!(
        FileHandle::<u8>::read_done(ReadOutcome::Filled(vec![1, 2])),
        Ok(vec![1, 2])
    );
    assert_eq!(FileHandle::<u8>::read_done(ReadOutcome::SeekFailed), Err(Errno::EIO));
    assert_eq!(FileHandle::<u8>::read_done(ReadOutcome::ReadFailed), Err(Errno::EIO));
}

#[test]
fn magic_numbers() {
    assert_eq!(&PDF_MAGIC_NUMBER, b"%PDF-");
    assert_eq!(&EPUB_MAGIC_NUMBER, b"PK\x03\x04");
}

#[test]
fn pdf_in_one_write() {
    let mut fh: FileHandle<u8> = FileHandle::create(STUB);
    let (path, content) = created(fh.write(0, b"%PDF-1.7"));
    assert_eq!(
        path,
        "/home/root/.local/share/remarkable/xochitl/0f1e2d3c-4b5a-6978-8796-a5b4c3d2e1f0.pdf"
    );
    assert_eq!(content, b"%PDF-1.7");
}

#[test]
fn epub_in_one_write() {
    let mut fh: FileHandle<u8> = FileHandle::create(STUB);
    let (path, content) = created(fh.write(0, b"PK\x03\x04"));
    assert_eq!(
        path,
        "/home/root/.local/share/remarkable/xochitl/0f1e2d3c-4b5a-6978-8796-a5b4c3d2e1f0.epub"
    );
    assert_eq!(content, b"PK\x03\x04");
}

#[test]
fn writes_add_up() {
    let mut fh: FileHandle<u8> = FileHandle::create(STUB);
    assert!(matches!(fh.write(0, b"%P"), WriteStep::Buffered(Ok(2))));
    assert!(matches!(fh.write(2, b""), WriteStep::Buffered(Ok(0))));
    assert!(matches!(fh.write(2, b"DF"), WriteStep::Buffered(Ok(2))));
    let (path, content) = created(fh.write(4, b"-1.4\n"));
    assert!(path.ends_with(".pdf"));
    assert_eq!(content, b"%PDF-1.4\n");
}

#[test]
fn offsets_of_new_files_are_ignored() {
    let mut fh: FileHandle<u8> = FileHandle::create(STUB);
    assert!(matches!(fh.write(100, b"PK"), WriteStep::Buffered(Ok(2))));
    let (path, content) = created(fh.write(0, b"\x03\x04"));
    assert!(path.ends_with(".epub"));
    assert_eq!(content, b"PK\x03\x04");
}

#[test]
fn unknown_kind_is_settled() {
    let mut fh: FileHandle<u8> = FileHandle::create(STUB);
    assert!(matches!(fh.write(0, b"hello"), WriteStep::Buffered(Ok(5))));
    assert!(matches!(fh.write(5, b"%PDF-"), WriteStep::Buffered(Ok(5))));
    assert!(matches!(fh.shutdown(), Err(Errno::EINVAL)));
}

#[test]
fn created_file_takes_later_writes() {
    let mut fh: FileHandle<u8> = FileHandle::create(STUB);
    created(fh.write(0, b"%PDF-1.7"));
    assert_eq!(fh.write_created(CreateOutcome::Created(3), 8), Ok(8));
    assert!(matches!(fh.write(8, b"more"), WriteStep::Forward { offset: 8 }));
    assert_eq!(fh.read(0, 8), Ok(ReadPlan { offset: 0, len: 8 }));
    assert!(matches!(fh.shutdown(), Ok(3)));
}

#[test]
fn failed_creation_keeps_the_bytes() {
    let mut fh: FileHandle<u8> = FileHandle::create(STUB);
    created(fh.write(0, b"%PDF-"));
    assert_eq!(fh.write_created(CreateOutcome::CreateFailed, 5), Err(Errno::EIO));
    assert_eq!(fh.write_created(CreateOutcome::WriteFailed, 5), Err(Errno::EIO));
    let (_, content) = created(fh.write(5, b"1.7"));
    assert_eq!(content, b"%PDF-1.7");
}

#[test]
fn forwarded_writes() {
    assert_eq!(
        FileHandle::<u8>::write_forwarded(ForwardOutcome::SeekFailed),
        Err(Errno::EIO)
    );
    assert_eq!(
        FileHandle::<u8>::write_forwarded(ForwardOutcome::WriteFailed(Errno::Reported(28))),
        Err(Errno::Reported(28))
    );
    assert_eq!(FileHandle::<u8>::write_forwarded(ForwardOutcome::Written(12)), Ok(12));
    assert_eq!(
        FileHandle::<u8>::write_forwarded(ForwardOutcome::Written(u32::MAX as usize)),
        Ok(u32::MAX)
    );
    assert_eq!(
        FileHandle::<u8>::write_forwarded(ForwardOutcome::Written(u32::MAX as usize + 1)),
        Err(Errno::EOVERFLOW)
    );
}

fn written(chunks: &[&[u8]]) -> Option<(String, Vec<u8>)> {
    let mut fh: FileHandle<u8> = FileHandle::create(STUB);
    let mut file: Option<(String, Vec<u8>)> = None;
    let mut at = 0;
    for chunk in chunks {
        match fh.write(at, chunk) {
            WriteStep::Create { path, content } => {
                file = Some((path, content));
                assert!(fh.write_created(CreateOutcome::Created(1), chunk.len()).is_ok());
            }
            WriteStep::Forward { offset } => {
                let content = &mut file.as_mut().unwrap().1;
                assert_eq!(offset as usize, content.len());
                content.extend_from_slice(chunk);
            }
            WriteStep::Buffered(n) => assert_eq!(n, Ok(chunk.len() as u32)),
        }
        at += chunk.len() as u64;
    }
    file
}

#[test]
fn split_writes_leave_the_same() {
    let pdf: &[u8] = b"%PDF-1.7 some content";
    let (path, content) = written(&[pdf]).unwrap();
    assert!(path.ends_with(".pdf"));
    assert_eq!(content, pdf);
    for i in 0..pdf.len() {
        for j in i..pdf.len() {
            let split = written(&[&pdf[..i], &pdf[i..j], &pdf[j..]]);
            assert_eq!(split, Some((path.clone(), content.clone())));
        }
    }
    assert_eq!(written(&[b"no ", b"%PDF-"]), None);
}
