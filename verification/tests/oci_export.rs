use pocket_runtime::oci_export::{
    content_matches, decode_manifest, descriptor_digest, dump_script, encode_pax, insert_record,
    is_entry_encodable, is_name_encodable, layer_path, next_entry, staged_name, write_octal, ManifestEntry, ManifestXattr, PaxRecord,
    TarBuilder, BLOCK, KIND_BLOCK_DEVICE, KIND_CHAR_DEVICE, KIND_DIRECTORY, KIND_FIFO, KIND_FILE,
    KIND_SOCKET, KIND_SYMLINK,
};
use sha2::{Digest, Sha256};

fn entry(path: &str, kind: u8) -> ManifestEntry {
    ManifestEntry {
        path: path.as_bytes().to_vec(),
        kind,
        mode: 0o644,
        uid: 0,
        gid: 0,
        size: 0,
        rdev: 0,
        mtime_seconds: 1_700_000_000,
        mtime_nanoseconds: 0,
        symlink_target: if kind == KIND_SYMLINK {
            Some(b"target".to_vec())
        } else {
            None
        },
        // A regular file carries exactly one of a content digest or a hardlink
        // target.
        content_sha256: if kind == KIND_FILE {
            Some(Sha256::digest(b"").to_vec())
        } else {
            None
        },
        hardlink_target: None,
        xattrs: Vec::new(),
    }
}

fn archive(entry: &ManifestEntry, contents: &[u8]) -> Vec<u8> {
    let mut builder = TarBuilder::new();
    assert!(builder.append(entry, contents).expect("append entry"));
    builder.finish().0
}

fn octal(field: &[u8]) -> u64 {
    let text = std::str::from_utf8(field).expect("octal field is ascii");
    u64::from_str_radix(text.trim_end_matches('\0'), 8).expect("octal field")
}

#[test]
fn a_header_checksum_is_the_sum_with_its_own_field_blanked() {
    let bytes = archive(&entry("etc", KIND_DIRECTORY), &[]);
    let stated = std::str::from_utf8(&bytes[148..154]).expect("checksum field is ascii");
    let mut header: [u8; BLOCK] = bytes[..BLOCK].try_into().expect("one block");
    header[148..156].fill(b' ');
    let sum: u32 = header.iter().map(|byte| u32::from(*byte)).sum();
    assert_eq!(u32::from_str_radix(stated, 8).expect("octal checksum"), sum);
    assert_eq!(&bytes[154..156], b"\0 ");
}

#[test]
fn a_directory_is_recorded_with_a_trailing_separator() {
    let bytes = archive(&entry("etc", KIND_DIRECTORY), &[]);
    assert!(bytes.starts_with(b"etc/\0"));
    assert_eq!(bytes[156], b'5');
}

#[test]
fn a_long_path_moves_into_a_pax_header() {
    let long = "a".repeat(150);
    let bytes = archive(&entry(&long, KIND_FILE), &[]);
    assert_eq!(bytes[156], b'x', "a PAX header must come first");
    let payload = String::from_utf8_lossy(&bytes[BLOCK..BLOCK * 2]);
    assert!(payload.contains(&format!("path={long}")));
    // The member's own field holds what fits before its terminator.
    assert_eq!(&bytes[BLOCK * 2..BLOCK * 2 + 99], "a".repeat(99).as_bytes());
    assert_eq!(bytes[BLOCK * 2 + 99], 0);
}

#[test]
fn an_xattr_becomes_a_schily_record() {
    let mut subject = entry("f", KIND_FILE);
    subject.xattrs = vec![ManifestXattr {
        name: b"user.demo".to_vec(),
        value: b"value".to_vec(),
    }];
    let bytes = archive(&subject, &[]);
    let payload = String::from_utf8_lossy(&bytes[BLOCK..BLOCK * 2]);
    assert!(
        payload.contains("SCHILY.xattr.user.demo=value"),
        "{payload}"
    );
}

#[test]
fn a_pax_record_length_counts_itself() {
    let mut records: Vec<PaxRecord> = Vec::new();
    insert_record(&mut records, b"path".to_vec(), vec![b'a'; 100]);
    let payload = encode_pax(&records);
    let text = String::from_utf8(payload.clone()).expect("pax payload is utf8");
    let stated: usize = text
        .split(' ')
        .next()
        .expect("a length")
        .parse()
        .expect("decimal length");
    assert_eq!(stated, payload.len());
}

#[test]
fn pax_records_are_sorted_and_the_last_value_of_a_key_counts() {
    let mut records: Vec<PaxRecord> = Vec::new();
    insert_record(&mut records, b"path".to_vec(), b"p".to_vec());
    insert_record(&mut records, b"linkpath".to_vec(), b"l".to_vec());
    insert_record(&mut records, b"path".to_vec(), b"q".to_vec());
    assert_eq!(encode_pax(&records), b"14 linkpath=l\n9 path=q\n".to_vec());
}

#[test]
fn a_fractional_time_moves_into_a_pax_header() {
    let mut subject = entry("f", KIND_FILE);
    subject.mtime_seconds = -3;
    subject.mtime_nanoseconds = 42;
    let bytes = archive(&subject, &[]);
    // Three seconds before the epoch and then 42 nanoseconds on.
    assert!(bytes[BLOCK..].starts_with(b"22 mtime=-2.999999958\n"));
    // The fixed-width field has no sign.
    assert_eq!(octal(&bytes[BLOCK * 2 + 136..BLOCK * 2 + 147]), 0);
    subject.mtime_seconds = -1;
    subject.mtime_nanoseconds = 500_000_000;
    let bytes = archive(&subject, &[]);
    assert!(bytes[BLOCK..].starts_with(b"22 mtime=-0.500000000\n"));
    subject.mtime_seconds = 12;
    subject.mtime_nanoseconds = 7;
    let bytes = archive(&subject, &[]);
    assert!(bytes[BLOCK..].starts_with(b"22 mtime=12.000000007\n"));
}

#[test]
fn what_does_not_fit_its_field_is_in_a_record() {
    // A field keeps its last byte for the terminator.
    let name = "a".repeat(100);
    let mut subject = entry(&name, KIND_FILE);
    subject.uid = 2_097_152;
    let bytes = archive(&subject, &[]);
    assert_eq!(bytes[156], b'x');
    let expected = format!("110 path={name}\n15 uid=2097152\n");
    assert!(bytes[BLOCK..].starts_with(expected.as_bytes()));
    assert_eq!(bytes[BLOCK + expected.len()], 0);

    // What fits needs no record.
    let mut subject = entry(&"a".repeat(99), KIND_FILE);
    subject.uid = 2_097_151;
    subject.gid = 2_097_151;
    subject.mtime_seconds = 8_589_934_591;
    let bytes = archive(&subject, &[]);
    assert_eq!(bytes[156], b'0');
    assert_eq!(octal(&bytes[108..115]), 2_097_151);
    assert_eq!(octal(&bytes[136..147]), 8_589_934_591);

    let mut subject = entry("l", KIND_SYMLINK);
    subject.symlink_target = Some(vec![b't'; 100]);
    subject.gid = u32::MAX;
    subject.mtime_seconds = 8_589_934_592;
    let bytes = archive(&subject, &[]);
    let expected = format!(
        "18 gid=4294967295\n114 linkpath={}\n30 mtime=8589934592.000000000\n",
        "t".repeat(100)
    );
    assert!(bytes[BLOCK..].starts_with(expected.as_bytes()));

    let mut subject = entry("before", KIND_FILE);
    subject.mtime_seconds = -5;
    let bytes = archive(&subject, &[]);
    assert!(bytes[BLOCK..].starts_with(b"22 mtime=-5.000000000\n"));
}

#[test]
fn the_last_value_of_an_attribute_is_recorded() {
    let mut subject = entry("f", KIND_FILE);
    for (name, value) in [("user.a", "1"), ("user.b", "2"), ("user.a", "3")] {
        subject.xattrs.push(ManifestXattr {
            name: name.as_bytes().to_vec(),
            value: value.as_bytes().to_vec(),
        });
    }
    let bytes = archive(&subject, &[]);
    assert!(bytes[BLOCK..]
        .starts_with(b"25 SCHILY.xattr.user.a=3\n25 SCHILY.xattr.user.b=2\n\0"));
}

#[test]
fn an_archive_can_be_taken_away_piece_by_piece() {
    let mut whole = TarBuilder::new();
    let mut pieces = TarBuilder::new();
    let mut taken = Vec::new();
    for name in ["a", "b"] {
        for builder in [&mut whole, &mut pieces] {
            assert_eq!(builder.append(&entry(name, KIND_FILE), b"body"), Ok(true));
        }
        taken.extend(pieces.take());
    }
    assert!(pieces.take().is_empty());
    let (bytes, digest) = whole.finish();
    let (rest, same) = pieces.finish();
    assert_eq!(rest.len(), 2 * BLOCK);
    taken.extend(rest);
    assert_eq!(taken, bytes);
    assert_eq!(digest, same);
    assert_eq!(digest.to_vec(), Sha256::digest(&bytes).to_vec());
}

#[test]
fn a_device_records_its_major_and_minor() {
    let mut subject = entry("dev/null", KIND_CHAR_DEVICE);
    subject.rdev = (1 << 8) | 3; // major 1, minor 3
    let bytes = archive(&subject, &[]);
    assert_eq!(bytes[156], b'3');
    assert_eq!(octal(&bytes[329..336]), 1);
    assert_eq!(octal(&bytes[337..344]), 3);
}

#[test]
fn a_socket_has_no_tar_representation_and_is_skipped() {
    let mut builder = TarBuilder::new();
    assert!(!builder
        .append(&entry("s", KIND_SOCKET), &[])
        .expect("append entry"));
    let (bytes, _) = builder.finish();
    assert_eq!(bytes.len(), BLOCK * 2);
    assert!(bytes.iter().all(|byte| *byte == 0));
}

#[test]
fn a_hardlink_carries_its_target_and_no_body() {
    let mut subject = entry("b", KIND_FILE);
    subject.content_sha256 = None;
    subject.hardlink_target = Some(b"a".to_vec());
    let bytes = archive(&subject, b"ignored");
    assert_eq!(bytes[156], b'1');
    assert_eq!(&bytes[157..158], b"a");
    assert_eq!(octal(&bytes[124..135]), 0);
    assert_eq!(bytes.len(), BLOCK * 3);
}

#[test]
fn a_file_carries_its_body_in_whole_blocks() {
    let bytes = archive(&entry("f", KIND_FILE), &[7_u8; 513]);
    assert_eq!(octal(&bytes[124..135]), 513);
    assert_eq!(&bytes[BLOCK..BLOCK + 513], &[7_u8; 513]);
    assert_eq!(bytes.len(), BLOCK * 5);
    assert_eq!(&bytes[257..265], b"ustar\x0000");
}

#[test]
fn other_kinds_have_their_own_type_flags() {
    assert_eq!(archive(&entry("l", KIND_SYMLINK), &[])[156], b'2');
    assert_eq!(archive(&entry("b", KIND_BLOCK_DEVICE), &[])[156], b'4');
    assert_eq!(archive(&entry("p", KIND_FIFO), &[])[156], b'6');
    let mut builder = TarBuilder::new();
    assert_eq!(
        builder.append(&entry("x", 9), &[]),
        Err("unknown entry kind 9".to_owned())
    );
}

#[test]
fn transport_members_carry_the_callers_ids() {
    let mut builder = TarBuilder::new();
    builder.append_dir("blobs", 1000, 1001);
    builder.append_raw("oci-layout", b"{}", 0o600, 1000, 1001);
    let (bytes, digest) = builder.finish();
    assert!(bytes.starts_with(b"blobs/\0"));
    assert_eq!(octal(&bytes[100..107]), 0o755);
    assert_eq!(octal(&bytes[108..115]), 1000);
    assert_eq!(octal(&bytes[116..123]), 1001);
    let file = &bytes[BLOCK..];
    assert!(file.starts_with(b"oci-layout\0"));
    assert_eq!(octal(&file[100..107]), 0o600);
    assert_eq!(octal(&file[124..135]), 2);
    assert_eq!(&file[BLOCK..BLOCK + 2], b"{}");
    assert_eq!(digest.to_vec(), Sha256::digest(&bytes).to_vec());
}

#[test]
fn the_archive_ends_with_two_zero_blocks() {
    let bytes = archive(&entry("f", KIND_FILE), &[]);
    assert!(bytes[bytes.len() - BLOCK * 2..]
        .iter()
        .all(|byte| *byte == 0));
    assert_eq!(bytes.len() % BLOCK, 0);
}

#[test]
fn a_manifest_round_trips_through_its_framing() {
    let entries = vec![b"first entry".to_vec(), vec![7_u8; 300]];
    let mut encoded = Vec::new();
    for payload in &entries {
        encoded.extend_from_slice(&(payload.len() as u32).to_be_bytes());
        encoded.extend_from_slice(payload);
    }
    assert_eq!(decode_manifest(&encoded).expect("decode manifest"), entries);
    assert_eq!(next_entry(&encoded, 0), Ok(Some((4, 15))));
    assert_eq!(next_entry(&encoded, encoded.len()), Ok(None));
}

#[test]
fn a_truncated_manifest_is_refused_rather_than_guessed_at() {
    let payload = b"entry".to_vec();
    let mut encoded = (payload.len() as u32).to_be_bytes().to_vec();
    encoded.extend_from_slice(&payload[..payload.len() - 1]);
    assert_eq!(
        decode_manifest(&encoded),
        Err("manifest entry at 4 claims 5 bytes".to_owned())
    );
    let mut two = Vec::new();
    for payload in [b"one".as_slice(), b"three".as_slice()] {
        two.extend_from_slice(&(payload.len() as u32).to_be_bytes());
        two.extend_from_slice(payload);
    }
    for cut in 0..=two.len() {
        match cut {
            0 => assert_eq!(decode_manifest(&two[..cut]), Ok(Vec::new())),
            7 => assert_eq!(decode_manifest(&two[..cut]), Ok(vec![b"one".to_vec()])),
            16 => assert!(decode_manifest(&two[..cut]).is_ok()),
            _ => assert!(decode_manifest(&two[..cut]).is_err(), "accepted {cut} bytes"),
        }
    }
    assert_eq!(
        decode_manifest(&[0, 0, 0]),
        Err("manifest ends inside a length prefix at 0".to_owned())
    );
    assert_eq!(
        decode_manifest(&[0, 0, 0, 0]),
        Err("manifest entry at 4 claims 0 bytes".to_owned())
    );
}

#[test]
fn only_what_lies_under_rootfs_reaches_the_layer() {
    assert_eq!(
        layer_path(&entry("rootfs/bin/sh", KIND_FILE)),
        Some(b"bin/sh".to_vec())
    );
    // pocket's own bookkeeping is not image content.
    assert_eq!(layer_path(&entry("", KIND_DIRECTORY)), None);
    assert_eq!(layer_path(&entry("rootfs", KIND_DIRECTORY)), None);
    assert_eq!(layer_path(&entry("rootfs/", KIND_DIRECTORY)), None);
    assert_eq!(
        layer_path(&entry(".pocket-generation.cbor", KIND_FILE)),
        None
    );
}

#[test]
fn contents_are_checked_against_the_recorded_digest() {
    let mut subject = entry("f", KIND_FILE);
    subject.content_sha256 = Some(Sha256::digest(b"hello").to_vec());
    assert!(content_matches(&subject, b"hello"));
    assert!(!content_matches(&subject, b"goodbye"));
    subject.content_sha256 = None;
    assert!(content_matches(&subject, b"goodbye"));
}

#[test]
fn a_descriptor_digest_names_its_algorithm() {
    assert_eq!(
        descriptor_digest(b"abc"),
        "sha256:ba7816bf8f01cfea414140de5dae2223b00361a396177a9cb410ff61f20015ad"
    );
}

#[test]
fn the_dump_script_skips_what_has_no_contents_to_read() {
    let mut file = entry("rootfs/etc/passwd", KIND_FILE);
    file.size = 10;
    let mut link = entry("rootfs/etc/alias", KIND_FILE);
    link.content_sha256 = None;
    link.hardlink_target = Some(b"etc/passwd".to_vec());
    let entries = vec![
        entry("rootfs", KIND_DIRECTORY),
        file,
        link,
        entry("rootfs/e", KIND_FILE),
    ];
    let script = String::from_utf8(dump_script(&entries, "/tmp/x")).expect("script is utf8");
    assert_eq!(script.matches("dump ").count(), 1);
    assert!(
        script.contains("dump /rootfs/etc/passwd /tmp/x/f00000001"),
        "{script}"
    );
    assert!(script.ends_with("quit\n"));
}

#[test]
fn no_guest_path_begins_a_command_or_names_a_host_file() {
    let dump = |path: &[u8]| {
        let mut file = entry("", KIND_FILE);
        file.path = path.to_vec();
        file.size = 1;
        String::from_utf8(dump_script(&vec![file], "/tmp/x")).expect("script is utf8")
    };
    assert_eq!(
        dump(b"rootfs/a\nb"),
        "dump <0> /tmp/x/f00000000\nquit\n"
    );
    assert_eq!(dump(b"rootfs/a\0b"), "dump <0> /tmp/x/f00000000\nquit\n");
    assert_eq!(
        dump(b"rootfs/a b /etc/passwd"),
        "dump \"/rootfs/a b /etc/passwd\" /tmp/x/f00000000\nquit\n"
    );
    assert_eq!(
        dump(b"rootfs/a\"b"),
        "dump \"/rootfs/a\"\"b\" /tmp/x/f00000000\nquit\n"
    );
    assert_eq!(
        dump(b"rootfs/a\tb"),
        "dump \"/rootfs/a\tb\" /tmp/x/f00000000\nquit\n"
    );
    assert_eq!(dump(b"rootfs/a"), "dump /rootfs/a /tmp/x/f00000000\nquit\n");
}

#[test]
fn a_staged_name_is_an_index_of_eight_digits() {
    assert_eq!(staged_name(7), "f00000007");
    assert_eq!(staged_name(123_456_789), "f123456789");
}

#[test]
fn number_fields_hold_octal_digits_and_a_terminator() {
    let mut header = Vec::new();
    write_octal(&mut header, 12, 12345);
    assert_eq!(header, b"00000030071\0");
    // Only the last digits of a number that does not fit are kept.
    let mut header = Vec::new();
    write_octal(&mut header, 8, 0o123456701);
    assert_eq!(header, b"3456701\0");
}

#[test]
fn a_member_reads_back_from_the_archive() {
    let mut subject = entry("rootfs/etc/motd", KIND_FILE);
    subject.uid = 1000;
    subject.gid = 100;
    let mut builder = TarBuilder::new();
    assert_eq!(builder.append(&subject, b"welcome\n"), Ok(true));
    let (bytes, _) = builder.finish();
    assert_eq!(&bytes[..16], b"rootfs/etc/motd\0");
    assert_eq!(octal(&bytes[108..115]), 1000);
    assert_eq!(octal(&bytes[116..123]), 100);
    assert_eq!(octal(&bytes[124..135]), 8);
    assert_eq!(octal(&bytes[136..147]), 1_700_000_000);
    assert_eq!(bytes[156], b'0');
    assert_eq!(&bytes[BLOCK..BLOCK + 8], b"welcome\n");
    assert_eq!(bytes.len(), 4 * BLOCK);
}

#[test]
fn a_long_link_is_carried_by_a_record() {
    let mut subject = entry("rootfs/link", KIND_SYMLINK);
    subject.symlink_target = Some(vec![b't'; 150]);
    subject.xattrs = vec![ManifestXattr {
        name: b"user.note".to_vec(),
        value: b"kept".to_vec(),
    }];
    let mut builder = TarBuilder::new();
    assert_eq!(builder.append(&subject, &[]), Ok(true));
    let (bytes, _) = builder.finish();
    let payload = String::from_utf8_lossy(&bytes[BLOCK..2 * BLOCK]).into_owned();
    assert!(payload.contains("linkpath=tttt"));
    assert!(payload.contains("SCHILY.xattr.user.note=kept"));
}

#[test]
fn what_memory_holds_an_archive_can_hold() {
    let mut subject = entry("rootfs/long", KIND_SYMLINK);
    subject.path = vec![b'a'; 1 << 20];
    subject.symlink_target = Some(vec![b'b'; 1 << 20]);
    subject.hardlink_target = Some(vec![b'c'; 1 << 20]);
    subject.xattrs = vec![ManifestXattr {
        name: b"user.long".to_vec(),
        value: vec![b'd'; 1 << 20],
    }];
    assert!(is_entry_encodable(&subject));
    assert!(is_name_encodable(""));
    assert!(is_name_encodable(&"n".repeat(1 << 20)));
}
