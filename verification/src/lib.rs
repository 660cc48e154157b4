//! Mounting a multi-device, optionally encrypted bcachefs filesystem.
//!
//! A filesystem lies on several block devices, each of which carries a
//! superblock with the filesystem's UUID. The library gathers the devices by
//! UUID ([`probe`]), unlocks an encrypted filesystem by getting its key into
//! the kernel's keyring ([`key`]), and puts the mount call together
//! ([`filesystem`], [`options`]).
//!
//! The library reads no device, keyring or terminal. Its callers do, and hand
//! over what they found: [`superblock`] holds a superblock as plain values,
//! [`probe::Probe`] what reading one device came to, and
//! [`key::UnlockEvent`] what came of the step that the unlock engine asked
//! for.

pub mod filesystem;
pub mod key;
pub mod options;
pub mod probe;
pub mod superblock;
