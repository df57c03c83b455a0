use pocket_runtime::filesystem::{
    check_base_file, ext4_geometry, validate_ext4_base, EXT4_ERROR_FS,
    EXT4_FEATURE_INCOMPAT_64BIT, EXT4_FEATURE_INCOMPAT_RECOVER, EXT4_VALID_FS, EXT_SUPER_MAGIC,
};

fn superblock() -> [u8; 1024] {
    let mut superblock = [0_u8; 1024];
    superblock[0x00..0x04].copy_from_slice(&64_u32.to_le_bytes());
    superblock[0x04..0x08].copy_from_slice(&8_u32.to_le_bytes());
    superblock[0x18..0x1c].copy_from_slice(&2_u32.to_le_bytes());
    superblock[0x38..0x3a].copy_from_slice(&EXT_SUPER_MAGIC.to_le_bytes());
    superblock[0x3a..0x3c].copy_from_slice(&EXT4_VALID_FS.to_le_bytes());
    superblock[0x68] = 1;
    superblock
}

#[test]
fn requires_clean_4096_byte_ext_filesystem_contract() {
    let mut superblock = superblock();
    assert!(validate_ext4_base("/base.ext4", &superblock, 4096 * 8).is_ok());
    superblock[0x18..0x1c].copy_from_slice(&0_u32.to_le_bytes());
    assert!(validate_ext4_base("/base.ext4", &superblock, 4096 * 8).is_err());
}

#[test]
fn unclean_or_resized_bases_are_refused() {
    let refused = |change: fn(&mut [u8; 1024])| {
        let mut changed = superblock();
        change(&mut changed);
        validate_ext4_base("/base.ext4", &changed, 4096 * 8).is_err()
    };
    assert!(refused(|block| block[0x38] = 0));
    assert!(refused(|block| block[0x3a..0x3c].copy_from_slice(&0_u16.to_le_bytes())));
    assert!(refused(|block| {
        block[0x3a..0x3c].copy_from_slice(&(EXT4_VALID_FS | EXT4_ERROR_FS).to_le_bytes())
    }));
    assert!(refused(|block| {
        block[0x60..0x64].copy_from_slice(&EXT4_FEATURE_INCOMPAT_RECOVER.to_le_bytes())
    }));
    assert!(refused(|block| block[0x04] = 9));
    assert!(refused(|block| block[0x68] = 0));
    // The file may be larger than the filesystem in it, not smaller.
    assert!(validate_ext4_base("/base.ext4", &superblock(), 4096 * 9).is_ok());
    assert!(validate_ext4_base("/base.ext4", &superblock(), 4096 * 7).is_err());
}

#[test]
fn a_base_is_a_regular_file_of_whole_blocks() {
    assert!(check_base_file("/base.ext4", true, 4096 * 8).is_ok());
    assert!(check_base_file("/base.ext4", false, 4096 * 8).is_err());
    assert!(check_base_file("/base.ext4", true, 100).is_err());
}

#[test]
fn geometry_joins_the_halves_of_a_large_block_count() {
    let mut block = superblock();
    assert_eq!(ext4_geometry(&block), (64, 8));
    block[0x150..0x154].copy_from_slice(&1_u32.to_le_bytes());
    assert_eq!(ext4_geometry(&block), (64, 8));
    block[0x60..0x64].copy_from_slice(&EXT4_FEATURE_INCOMPAT_64BIT.to_le_bytes());
    assert_eq!(ext4_geometry(&block), (64, (1 << 32) + 8));
}
