//! One filesystem as the scan of the devices found it, and the call that
//! mounts it.

use crate::options::{join, join_strings, option_data, option_flags, parse_mount_options, texts};
use crate::superblock::bch_sb_handle;
use vstd::prelude::*;

verus! {

/// A filesystem: the superblock of the first of its devices that was read,
/// and the paths of all its devices in the order in which they were found.
#[derive(Debug)]
pub struct FileSystem {
    /// External UUID of the filesystem.
    uuid: u128,
    /// Whether the filesystem is encrypted.
    encrypted: bool,
    /// Superblock of the device that was read first.
    sb: bch_sb_handle,
    /// Member devices of the filesystem.
    devices: Vec<String>,
}

/// What a [`FileSystem`] stands for. Its UUID and whether it is encrypted are
/// those of its superblock.
pub struct FileSystemView {
    pub sb: bch_sb_handle,
    pub devices: Seq<Seq<char>>,
}

impl FileSystemView {
    /// The filesystem's UUID as one number, first byte highest.
    pub open spec fn uuid(self) -> u128 {
        self.sb.sb.uuid()
    }

    /// Whether the superblock has an encryption field.
    pub open spec fn encrypted(self) -> bool {
        self.sb.sb.crypt is Some
    }

    /// The same filesystem with one more device.
    pub open spec fn with_device(self, device: Seq<char>) -> FileSystemView {
        FileSystemView { sb: self.sb, devices: self.devices.push(device) }
    }
}

impl View for FileSystem {
    type V = FileSystemView;

    closed spec fn view(&self) -> FileSystemView {
        FileSystemView { sb: self.sb, devices: texts(self.devices@) }
    }
}

/// The arguments of the `mount` system call.
#[derive(Debug, PartialEq, Eq)]
pub struct MountCall {
    /// The devices, separated by colons.
    pub source: String,
    /// The directory to mount on.
    pub target: String,
    /// The name of the filesystem type.
    pub fstype: String,
    /// The mount flags.
    pub flags: u64,
    /// The options for the filesystem, if any are left.
    pub data: Option<String>,
}

/// Why a mount failed.
#[derive(Clone, Copy, Debug, PartialEq, Eq)]
pub enum MountError {
    /// The system call failed with this error number.
    OsError(i32),
}

impl FileSystem {
    #[verifier::type_invariant]
    spec fn consistent(&self) -> bool {
        &&& self.uuid == self.sb.sb.uuid()
        &&& self.encrypted == (self.sb.sb.crypt is Some)
    }

    /// A filesystem known by its superblock, with no device yet.
    pub fn new(sb: bch_sb_handle) -> (fs: FileSystem)
        ensures
            fs@ == (FileSystemView { sb, devices: Seq::empty() }),
    {
        let fs = FileSystem {
            uuid: sb.get_sb().get_uuid(),
            encrypted: sb.get_sb().get_crypt().is_some(),
            sb,
            devices: Vec::new(),
        };
        assert(fs@.devices =~= Seq::empty());
        fs
    }

    /// The filesystem with one more device, behind those known already.
    pub fn with_device(self, device: String) -> (fs: FileSystem)
        ensures
            fs@ == self@.with_device(device@),
    {
        proof {
            use_type_invariant(&self);
        }
        let FileSystem { uuid, encrypted, sb, devices } = self;
        let mut devices = devices;
        devices.push(device);
        let fs = FileSystem { uuid, encrypted, sb, devices };
        assert(fs@.devices =~= self@.devices.push(device@));
        fs
    }

    /// External UUID of the filesystem.
    pub fn uuid(&self) -> (uuid: u128)
        ensures
            uuid == self@.uuid(),
    {
        proof {
            use_type_invariant(self);
        }
        self.uuid
    }

    /// Whether the filesystem is encrypted.
    pub fn encrypted(&self) -> (encrypted: bool)
        ensures
            encrypted == self@.encrypted(),
    {
        proof {
            use_type_invariant(self);
        }
        self.encrypted
    }

    /// Superblock of the device that was read first.
    pub fn sb(&self) -> (sb: &bch_sb_handle)
        ensures
            *sb == self@.sb,
    {
        &self.sb
    }

    /// Member devices of the filesystem.
    pub fn devices(&self) -> (devices: &Vec<String>)
        ensures
            texts(devices@) == self@.devices,
    {
        &self.devices
    }

    /// The call that mounts the filesystem on `target`: all its devices,
    /// separated by colons, as the source; `bcachefs` as the type; and the
    /// flags and the data that `options` stand for.
    pub fn mount(&self, target: &str, options: &str) -> (call: MountCall)
        ensures
            call.source@ == join(self@.devices, seq![':']),
            call.target@ == target@,
            call.fstype@ == "bcachefs"@,
            call.flags == option_flags(options@),
            match call.data {
                Some(data) => option_data(options@) == Some(data@),
                None => option_data(options@) is None,
            },
    {
        proof {
            reveal_strlit(":");
            assert(":"@ =~= seq![':']);
        }
        let source = join_strings(&self.devices, ":");
        let (data, flags) = parse_mount_options(options);
        MountCall { source, target: target.to_owned(), fstype: "bcachefs".to_owned(), flags, data }
    }
}

/// What the `mount` system call's return value means: 0 is success, anything
/// else a failure with the error number that the call left behind.
pub fn mount_result(ret: i32, errno: i32) -> (result: Result<(), MountError>)
    ensures
        ret == 0 ==> result is Ok,
        ret != 0 ==> result == Err::<(), MountError>(MountError::OsError(errno)),
{
    if ret == 0 {
        Ok(())
    } else {
        Err(MountError::OsError(errno))
    }
}

} // verus!
