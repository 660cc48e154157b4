use bcachefs_mount::superblock::{
    bch_crypt_flags, bch_encrypted_key, bch_key, bch_sb, bch_sb_field_crypt, bch_sb_handle,
    bch_scrypt_flags, nonce, BCH_KDF_SCRYPT,
};

fn crypt_field(flags: u64, kdf_flags: u64) -> bch_sb_field_crypt {
    bch_sb_field_crypt {
        flags,
        kdf_flags,
        key: bch_encrypted_key { magic: 7, key: bch_key { key: [1, 2, 3, 4] } },
    }
}

fn superblock(user_uuid: [u8; 16], crypt: Option<bch_sb_field_crypt>) -> bch_sb {
    bch_sb { user_uuid, key_nonce: nonce { d: [9, 8, 7, 6] }, crypt }
}

#[test]
fn uuid_reads_the_bytes_highest_first() {
    let sb = superblock(
        [
            0x93, 0x6d, 0xa0, 0x1f, 0x9a, 0xbd, 0x4d, 0x9d, 0x80, 0xc7, 0x02, 0xaf, 0x85, 0xc8,
            0x22, 0xa8,
        ],
        None,
    );
    assert_eq!(sb.get_uuid(), 0x936d_a01f_9abd_4d9d_80c7_02af_85c8_22a8);
}

#[test]
fn uuid_of_extreme_bytes() {
    assert_eq!(superblock([0; 16], None).get_uuid(), 0);
    assert_eq!(superblock([0xff; 16], None).get_uuid(), u128::MAX);
    let mut low = [0u8; 16];
    low[15] = 1;
    assert_eq!(superblock(low, None).get_uuid(), 1);
    let mut high = [0u8; 16];
    high[0] = 1;
    assert_eq!(superblock(high, None).get_uuid(), 1 << 120);
}

#[test]
fn selector_is_the_five_lowest_bits() {
    assert_eq!(bch_crypt_flags(0).TYPE(), 0);
    assert_eq!(bch_crypt_flags(1).TYPE(), 1);
    assert_eq!(bch_crypt_flags(0x1f).TYPE(), 0x1f);
    assert_eq!(bch_crypt_flags(0x20).TYPE(), 0);
    assert_eq!(bch_crypt_flags(u64::MAX).TYPE(), 0x1f);
    assert_eq!(bch_crypt_flags(0xffff_ffff_ffff_ffe3).TYPE(), 3);
}

#[test]
fn scrypt_parameters_are_cut_from_the_word() {
    let flags = bch_scrypt_flags(14 | (8 << 16) | (2 << 32));
    assert_eq!(flags.N(), 14);
    assert_eq!(flags.R(), 8);
    assert_eq!(flags.P(), 2);
}

#[test]
fn scrypt_parameters_share_their_border_bits() {
    let flags = bch_scrypt_flags((1 << 16) | (1 << 32) | (1 << 48) | (1 << 49));
    assert_eq!(flags.N(), 1 << 16);
    assert_eq!(flags.R(), 1 | (1 << 16));
    assert_eq!(flags.P(), 1 | (1 << 16));
    let all = bch_scrypt_flags(u64::MAX);
    assert_eq!(all.N(), 0x1_ffff);
    assert_eq!(all.R(), 0x1_ffff);
    assert_eq!(all.P(), 0x1_ffff);
}

#[test]
fn scrypt_flags_come_with_the_scrypt_selector_only() {
    assert_eq!(BCH_KDF_SCRYPT, 0);
    assert_eq!(crypt_field(0, 0x1234).get_scrypt_flags(), Some(bch_scrypt_flags(0x1234)));
    assert_eq!(crypt_field(0x20, 5).get_scrypt_flags(), Some(bch_scrypt_flags(5)));
    assert_eq!(crypt_field(1, 0x1234).get_scrypt_flags(), None);
    assert_eq!(crypt_field(0x10, 0x1234).get_scrypt_flags(), None);
    assert_eq!(crypt_field(u64::MAX, 0x1234).get_scrypt_flags(), None);
}

#[test]
fn crypt_field_hands_out_its_key() {
    let field = crypt_field(0, 0);
    assert_eq!(*field.key(), bch_encrypted_key { magic: 7, key: bch_key { key: [1, 2, 3, 4] } });
}

#[test]
fn superblock_hands_out_its_parts() {
    let field = crypt_field(0, 3);
    let plain = superblock([1; 16], None);
    let locked = superblock([1; 16], Some(field));
    assert_eq!(plain.get_crypt(), None);
    assert_eq!(locked.get_crypt(), Some(&field));
    assert_eq!(locked.nonce(), nonce { d: [9, 8, 7, 6] });
}

#[test]
fn handle_hands_out_its_superblock() {
    let sb = superblock([5; 16], Some(crypt_field(0, 3)));
    let handle = bch_sb_handle { sb };
    assert_eq!(*handle.get_sb(), sb);
}
