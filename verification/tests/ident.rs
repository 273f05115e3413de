use rmd::fuse_provider::tablet::{Asset, DbPointer, Metadata};
use rmd::ident::{uuid_to_ino, Uuid};

const BYTES: [u8; 16] = [
    0x0f, 0x1e, 0x2d, 0x3c, 0x4b, 0x5a, 0x69, 0x78, 0x87, 0x96, 0xa5, 0xb4, 0xc3, 0xd2, 0xe1, 0xf0,
];

fn asset(bytes: [u8; 16]) -> Asset {
    Asset {
        md: Metadata {
            deleted: false,
            last_modified: "0".to_string(),
            metadata_modified: false,
            parent: String::new(),
            pinned: false,
            synced: false,
            doc_type: "DocumentType".to_string(),
            version: 0,
            visible_name: "name".to_string(),
        },
        children: Vec::new(),
        id: Uuid { bytes },
        underlying: None,
        size_on_disk: 0,
    }
}

#[test]
fn parses_hyphenated() {
    let id = Uuid::parse("0f1e2d3c-4b5a-6978-8796-a5b4c3d2e1f0").unwrap();
    assert_eq!(id.bytes, BYTES);
}

#[test]
fn parses_upper_case_and_simple() {
    assert_eq!(Uuid::parse("0F1E2D3C-4B5A-6978-8796-A5B4C3D2E1F0").unwrap().bytes, BYTES);
    assert_eq!(Uuid::parse("0f1e2d3c4b5a69788796a5b4c3d2e1f0").unwrap().bytes, BYTES);
}

#[test]
fn parses_braced_and_urn() {
    assert_eq!(Uuid::parse("{0f1e2d3c-4b5a-6978-8796-a5b4c3d2e1f0}").unwrap().bytes, BYTES);
    assert_eq!(
        Uuid::parse("urn:uuid:0f1e2d3c-4b5a-6978-8796-a5b4c3d2e1f0").unwrap().bytes,
        BYTES
    );
    assert_eq!(
        Uuid::parse("URN:UUID:0f1e2d3c-4b5a-6978-8796-a5b4c3d2e1f0").map(|id| id.bytes),
        Uuid::parse("urn:uuid:0f1e2d3c-4b5a-6978-8796-a5b4c3d2e1f0").map(|id| id.bytes)
    );
}

#[test]
fn refuses_other_strings() {
    for s in [
        "",
        "trash",
        "0f1e2d3c-4b5a-6978-8796-a5b4c3d2e1f",
        "0f1e2d3c-4b5a-6978-8796-a5b4c3d2e1f00",
        "0f1e2d3c-4b5a-6978-8796a-5b4c3d2e1f0",
        "0g1e2d3c-4b5a-6978-8796-a5b4c3d2e1f0",
        "{0f1e2d3c4b5a69788796a5b4c3d2e1f0}",
        "{0f1e2d3c-4b5a-6978-8796-a5b4c3d2e1f0",
        "urn:uuid:0f1e2d3c4b5a69788796a5b4c3d2e1f0",
        "0f1e2d3c-4b5a-6978-8796-a5b4c3d2e\u{e9}0",
    ] {
        assert!(Uuid::parse(s).is_none(), "{}", s);
    }
}

#[test]
fn writes_hyphenated_lower_case() {
    assert_eq!(asset(BYTES).uuid_string(), "0f1e2d3c-4b5a-6978-8796-a5b4c3d2e1f0");
    assert_eq!(asset([0; 16]).uuid_string(), "00000000-0000-0000-0000-000000000000");
}

#[test]
fn hyphenated_form_is_read_back() {
    for i in 0..=255u8 {
        let mut bytes = BYTES;
        bytes[(i % 16) as usize] = i;
        let id = Uuid::parse(&asset(bytes).uuid_string()).unwrap();
        assert_eq!(id.bytes, bytes);
    }
}

#[test]
fn inode_number_takes_first_eight_bytes() {
    assert_eq!(uuid_to_ino(Uuid { bytes: BYTES }), 0x7869_5a4b_3c2d_1e0f);
    assert_eq!(uuid_to_ino(Uuid { bytes: [0xff; 16] }), u64::MAX);
    assert_eq!(uuid_to_ino(Uuid { bytes: [0; 16] }), 0);
}

#[test]
fn inode_numbers_collide_on_first_eight_bytes() {
    let mut other = BYTES;
    other[8] = 0;
    assert_eq!(uuid_to_ino(Uuid { bytes: BYTES }), uuid_to_ino(Uuid { bytes: other }));
    other[7] = 0;
    assert_ne!(uuid_to_ino(Uuid { bytes: BYTES }), uuid_to_ino(Uuid { bytes: other }));
}

#[test]
fn pointer_of_an_id() {
    let mut one = [0; 16];
    one[0] = 1;
    assert_eq!(DbPointer::from(Uuid { bytes: one }), DbPointer::Root);
    assert_eq!(
        DbPointer::from(Uuid { bytes: BYTES }),
        DbPointer::INode { id: 0x7869_5a4b_3c2d_1e0f }
    );
    assert_eq!(DbPointer::from(1u64), DbPointer::Root);
    assert_eq!(DbPointer::from(2u64), DbPointer::INode { id: 2 });
}
