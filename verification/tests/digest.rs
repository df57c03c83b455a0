use pocket_runtime::builder::files::hash_chunk;
use pocket_runtime::builder::transaction::BuildEvent;
use pocket_runtime::digest::{ArtifactDigest, FileDigest, ProfileRevision};
use pocket_runtime::pocket_archive::ImmutableSidecar;
use pocket_runtime::profile_seal::{copy_chunk, describe_copied_artifact, SourceMetadata};

#[test]
fn digests_require_canonical_sha256_text() {
    let good = format!("sha256:{}", "a1".repeat(32));
    assert_eq!(
        ArtifactDigest::parse(&good)
            .expect("canonical digest")
            .to_text(),
        good
    );
    assert!(ArtifactDigest::parse(&"a1".repeat(32)).is_err());
    assert!(ProfileRevision::parse(&format!("sha256:{}", "A1".repeat(32))).is_err());
}

#[test]
fn digests_are_the_sha256_of_the_bytes() {
    let digest = ArtifactDigest::of_bytes(b"abc");
    assert_eq!(
        digest.to_text(),
        "sha256:ba7816bf8f01cfea414140de5dae2223b00361a396177a9cb410ff61f20015ad"
    );
    assert_eq!(
        ArtifactDigest::parse(&digest.to_text()).expect("own text"),
        digest
    );
    assert!(!digest.same(ArtifactDigest::of_bytes(b"abd")));
}

#[test]
fn malformed_digest_texts_are_refused() {
    for text in [
        String::new(),
        "sha256:".to_owned(),
        format!("sha256:{}", "a1".repeat(31)),
        format!("sha256:{}", "g1".repeat(32)),
        format!("sha512:{}", "a1".repeat(32)),
        format!("sha256:{}\u{e9}", "a1".repeat(31)),
    ] {
        assert!(ArtifactDigest::parse(&text).is_err(), "accepted {text:?}");
    }
}

fn read_in_pieces(pieces: &[&[u8]]) -> FileDigest {
    let mut file = FileDigest::new();
    for piece in pieces {
        assert!(file.accept(piece));
    }
    file
}

#[test]
fn a_file_has_one_digest_however_it_is_read() {
    let whole = ArtifactDigest::of_bytes(b"abc");
    assert_eq!(read_in_pieces(&[b"abc"]).finish(), (whole, 3));
    assert_eq!(read_in_pieces(&[b"a", b"", b"bc"]).finish(), (whole, 3));
    assert_eq!(
        read_in_pieces(&[]).finish(),
        (ArtifactDigest::of_bytes(b""), 0)
    );
    let long = vec![7_u8; 200];
    assert_eq!(
        read_in_pieces(&[&long[..63], &long[63..64], &long[64..]]).finish(),
        (ArtifactDigest::of_bytes(&long), 200)
    );
}

#[test]
fn what_was_read_is_what_is_recorded() {
    let mut file = FileDigest::new();
    assert!(hash_chunk(&mut file, b"sid").is_ok());
    assert!(hash_chunk(&mut file, b"ecar").is_ok());
    let sidecar = ImmutableSidecar::of_file("build.log", file);
    assert_eq!(sidecar.name, "build.log");
    assert_eq!(sidecar.digest, ArtifactDigest::of_bytes(b"sidecar"));
    assert_eq!(sidecar.size, 7);

    match BuildEvent::hashed(read_in_pieces(&[b"ba", b"se"])) {
        BuildEvent::Hashed { digest, size } => {
            assert_eq!(digest, ArtifactDigest::of_bytes(b"base"));
            assert_eq!(size, 4);
        }
        other => panic!("a hash became {other:?}"),
    }

    let source = SourceMetadata {
        dev: 1,
        ino: 2,
        len: 4,
        mtime: 3,
        mtime_nsec: 4,
        ctime: 5,
        ctime_nsec: 6,
    };
    let mut copied = FileDigest::new();
    assert!(copy_chunk(&mut copied, b"um").is_ok());
    assert!(copy_chunk(&mut copied, b"l!").is_ok());
    let spec = describe_copied_artifact("/in/linux", "host/linux", &source, &source, copied)
        .expect("an unchanged source");
    assert_eq!(spec.sha256, ArtifactDigest::of_bytes(b"uml!"));
    assert_eq!(spec.size, 4);
    let short = read_in_pieces(&[b"uml"]);
    assert!(describe_copied_artifact("/in/linux", "host/linux", &source, &source, short).is_err());
}
