use bcachefs_mount::filesystem::{mount_result, FileSystem, MountCall, MountError};
use bcachefs_mount::superblock::{
    bch_encrypted_key, bch_key, bch_sb, bch_sb_field_crypt, bch_sb_handle, nonce,
};

fn handle(last: u8, encrypted: bool) -> bch_sb_handle {
    let mut user_uuid = [0u8; 16];
    user_uuid[15] = last;
    let crypt = if encrypted {
        Some(bch_sb_field_crypt {
            flags: 0,
            kdf_flags: 0,
            key: bch_encrypted_key { magic: 0, key: bch_key { key: [0; 4] } },
        })
    } else {
        None
    };
    bch_sb_handle { sb: bch_sb { user_uuid, key_nonce: nonce { d: [0; 4] }, crypt } }
}

#[test]
fn a_new_filesystem_has_what_its_superblock_says() {
    let plain = FileSystem::new(handle(7, false));
    assert_eq!(plain.uuid(), 7);
    assert!(!plain.encrypted());
    assert_eq!(*plain.sb(), handle(7, false));
    assert!(plain.devices().is_empty());

    let locked = FileSystem::new(handle(9, true));
    assert_eq!(locked.uuid(), 9);
    assert!(locked.encrypted());
}

#[test]
fn devices_are_kept_in_the_order_given() {
    let fs = FileSystem::new(handle(1, false))
        .with_device(String::from("/dev/sdb"))
        .with_device(String::from("/dev/sda"))
        .with_device(String::from("/dev/sdc"));
    assert_eq!(*fs.devices(), vec!["/dev/sdb", "/dev/sda", "/dev/sdc"]);
    assert_eq!(fs.uuid(), 1);
    assert_eq!(*fs.sb(), handle(1, false));
}

#[test]
fn mount_joins_devices_and_parses_options() {
    let fs = FileSystem::new(handle(1, false))
        .with_device(String::from("/dev/sda"))
        .with_device(String::from("/dev/sdb"));
    let call = fs.mount("/mnt", "noatime,foo,ro,bar");
    assert_eq!(
        call,
        MountCall {
            source: String::from("/dev/sda:/dev/sdb"),
            target: String::from("/mnt"),
            fstype: String::from("bcachefs"),
            flags: 1024 | 1,
            data: Some(String::from("foo,bar")),
        }
    );
}

#[test]
fn mount_of_one_device_without_options() {
    let fs = FileSystem::new(handle(1, false)).with_device(String::from("/dev/vda1"));
    let call = fs.mount("/srv/data", "");
    assert_eq!(call.source, "/dev/vda1");
    assert_eq!(call.target, "/srv/data");
    assert_eq!(call.fstype, "bcachefs");
    assert_eq!(call.flags, 0);
    assert_eq!(call.data, None);
}

#[test]
fn mount_without_devices_has_an_empty_source() {
    let call = FileSystem::new(handle(1, false)).mount("/mnt", "ro");
    assert_eq!(call.source, "");
    assert_eq!(call.flags, 1);
}

#[test]
fn mount_result_tells_success_from_failure() {
    assert_eq!(mount_result(0, 0), Ok(()));
    assert_eq!(mount_result(0, 13), Ok(()));
    assert_eq!(mount_result(-1, 13), Err(MountError::OsError(13)));
    assert_eq!(mount_result(-1, 0), Err(MountError::OsError(0)));
    assert_eq!(mount_result(5, 22), Err(MountError::OsError(22)));
    assert_eq!(mount_result(i32::MIN, i32::MAX), Err(MountError::OsError(i32::MAX)));
}
