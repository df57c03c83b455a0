use pocket_runtime::cow::{
    check_cow_file, check_cow_magic, validate_fresh_cow, CowMetadata, COW_MAGIC,
    COW_V3_HEADER_BYTES, COW_VERSION,
};
use pocket_runtime::error::RuntimeError;

const BASE: &str = "/srv/pocket/store/base.ext4";
const MTIME: i64 = 1_786_940_622;

fn header() -> [u8; COW_V3_HEADER_BYTES] {
    let mut header = [0_u8; COW_V3_HEADER_BYTES];
    header[0..4].copy_from_slice(&COW_MAGIC.to_be_bytes());
    header[4..8].copy_from_slice(&COW_VERSION.to_be_bytes());
    header[8..12].copy_from_slice(&(MTIME as u32).to_be_bytes());
    header[12..20].copy_from_slice(&8192_u64.to_be_bytes());
    header[20..24].copy_from_slice(&512_u32.to_be_bytes());
    header[24..28].copy_from_slice(&4096_u32.to_be_bytes());
    header[32..32 + BASE.len()].copy_from_slice(BASE.as_bytes());
    header
}

fn reason(checked: Result<(), RuntimeError>) -> String {
    match checked {
        Err(RuntimeError::Cow { reason, .. }) => reason,
        other => panic!("the overlay was not refused: {other:?}"),
    }
}

#[test]
fn validates_exact_v3_backing_identity() {
    let mut header = header();
    assert!(check_cow_magic("/cow", &header).is_ok());
    assert!(validate_fresh_cow("/cow", &header, BASE, MTIME, 8192).is_ok());
    header[32] ^= 1;
    assert_eq!(
        reason(validate_fresh_cow("/cow", &header, BASE, MTIME, 8192)),
        "backing pathname binding mismatch"
    );
}

#[test]
fn other_headers_are_refused() {
    let mut magic = header();
    magic[3] = 0;
    assert_eq!(
        reason(check_cow_magic("/cow", &magic)),
        "expected COW v3 magic/version, observed 0x4f4f4f00/3"
    );
    let mut version = header();
    version[7] = 2;
    assert!(check_cow_magic("/cow", &version).is_err());

    assert!(validate_fresh_cow("/cow", &header(), BASE, MTIME + 1, 8192).is_err());
    assert!(validate_fresh_cow("/cow", &header(), BASE, MTIME, 4096).is_err());
    let mut alignment = header();
    alignment[24..28].copy_from_slice(&5000_u32.to_be_bytes());
    assert_eq!(
        reason(validate_fresh_cow("/cow", &alignment, BASE, MTIME, 8192)),
        "invalid COW alignment 5000"
    );
    let mut endless = header();
    for byte in endless[32..].iter_mut() {
        *byte = b'x';
    }
    assert_eq!(
        reason(validate_fresh_cow("/cow", &endless, BASE, MTIME, 8192)),
        "backing pathname is not NUL-terminated"
    );
}

#[test]
fn an_overlay_is_a_private_file_of_its_own() {
    let fresh = CowMetadata {
        regular: true,
        links: 1,
        mode: 0o100600,
        length: 4128,
    };
    assert!(check_cow_file("/cow", &fresh).is_ok());
    assert!(check_cow_file("/cow", &CowMetadata { regular: false, ..fresh }).is_err());
    assert!(check_cow_file("/cow", &CowMetadata { links: 2, ..fresh }).is_err());
    assert!(check_cow_file("/cow", &CowMetadata { mode: 0o100640, ..fresh }).is_err());
    assert_eq!(
        reason(check_cow_file("/cow", &CowMetadata { length: 4127, ..fresh })),
        "truncated v3 header"
    );
}
