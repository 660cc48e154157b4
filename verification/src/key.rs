//! Unlocking an encrypted filesystem: the key is looked up in the kernel's
//! keyring, waited for, or made from a passphrase and put there.
//!
//! The keyring, the terminal and the ciphers are not reached from here. The
//! engine says what is to be done next and is told what came of it.

use crate::filesystem::{FileSystem, FileSystemView};
use crate::superblock::{bch_encrypted_key, bch_key, bch_sb_field_crypt, bch_scrypt_flags, nonce};
use byteorder::{LittleEndian, ReadBytesExt};
use vstd::prelude::*;
use vstd::string::is_ascii_spec_bytes;

verus! {

/// The magic word of a key that was decrypted with the right passphrase: the
/// bytes of `bch**key`, read as a little-endian number.
pub const BCH_KEY_MAGIC: u64 = 0x79656b_2a2a_686362;

/// The error number for a key that the keyring does not hold.
pub const ENOKEY: i32 = 126;

/// The seconds between two lookups while the engine waits for a key.
pub const POLL_SECONDS: u64 = 1;

/// The policy by which the key of an encrypted filesystem is obtained.
#[derive(Clone, Copy, Debug, PartialEq, Eq)]
pub enum PasswordInput {
    /// Give up at once.
    Fail,
    /// Wait until the key shows up in the keyring.
    Wait,
    /// Ask for the passphrase on the terminal.
    Ask,
}

/// Why a filesystem was not unlocked.
#[derive(Clone, Copy, Debug, PartialEq, Eq)]
pub enum KeyError {
    /// The policy is to fail, so no key was looked for.
    NoKeyAvailable,
    /// The passphrase did not decrypt the key.
    VerificationFailed,
    /// The superblock selects a key derivation function other than scrypt.
    UnsupportedKdf,
    /// The cipher reported a failure.
    DecryptionFailed,
    /// The keyring refused, with this error number.
    KeyringOperationFailed(i32),
}

/// The digit for a number below 16, in lower case.
pub open spec fn hex_digit(n: nat) -> char {
    seq!['0', '1', '2', '3', '4', '5', '6', '7', '8', '9', 'a', 'b', 'c', 'd', 'e', 'f'][n as int]
}

/// The last `count` hexadecimal digits of `value`, highest first.
pub open spec fn hex_digits(value: nat, count: nat) -> Seq<char>
    decreases count,
{
    if count == 0 {
        Seq::empty()
    } else {
        hex_digits(value / 16, (count - 1) as nat).push(hex_digit(value % 16))
    }
}

/// The canonical text of a UUID: its 32 hexadecimal digits in lower case, in
/// groups of 8, 4, 4, 4 and 12 with hyphens between them.
pub open spec fn uuid_text(uuid: u128) -> Seq<char> {
    let hex = hex_digits(uuid as nat, 32);
    hex.subrange(0, 8) + seq!['-'] + hex.subrange(8, 12) + seq!['-'] + hex.subrange(12, 16)
        + seq!['-'] + hex.subrange(16, 20) + seq!['-'] + hex.subrange(20, 32)
}

/// The name under which the keyring holds the key of the filesystem `uuid`.
pub open spec fn key_name_of(uuid: u128) -> Seq<char> {
    "bcachefs:"@ + uuid_text(uuid)
}

/// The number that `bytes` spell in little-endian order.
pub open spec fn le_value(bytes: Seq<u8>) -> nat
    decreases bytes.len(),
{
    if bytes.len() == 0 {
        0
    } else {
        bytes[0] as nat + 256 * le_value(bytes.drop_first())
    }
}

/// Whether `str::trim_end` takes a character for white space: whether it has
/// the Unicode property `White_Space`.
pub uninterp spec fn is_white_space(c: char) -> bool;

/// `s` without the white space at its end.
pub open spec fn trimmed_end(s: Seq<char>) -> Seq<char>
    decreases s.len(),
{
    if s.len() > 0 && is_white_space(s.last()) {
        trimmed_end(s.drop_last())
    } else {
        s
    }
}

/// `Uuid::from_u128` of the uuid crate, written out by the `Display` of
/// `Uuid`: the hyphenated form in lower case.
#[verifier::external_body]
fn uuid_to_text(uuid: u128) -> (text: String)
    ensures
        text@ == uuid_text(uuid),
{
    uuid::Uuid::from_u128(uuid).to_string()
}

/// `ReadBytesExt::read_u64::<LittleEndian>` of the byteorder crate on a byte
/// slice: the first eight bytes as a little-endian number, or nothing where
/// the slice is shorter.
#[verifier::external_body]
fn read_u64_le(bytes: &[u8]) -> (value: Option<u64>)
    ensures
        match value {
            Some(v) => bytes@.len() >= 8 && v as nat == le_value(bytes@.take(8)),
            None => bytes@.len() < 8,
        },
{
    let mut reader = bytes;
    reader.read_u64::<LittleEndian>().ok()
}

/// The constant `ENOKEY` of the libc crate, which is 126 on the Linux targets
/// that number their errors as x86 and ARM do.
#[verifier::external_body]
fn enokey() -> (errno: i32)
    ensures
        errno == ENOKEY,
{
    libc::ENOKEY
}

/// `str::trim_end`: the string up to and with its last character that is no
/// white space.
#[verifier::external_body]
fn trim_end(s: &str) -> (trimmed: &str)
    ensures
        trimmed@ == trimmed_end(s@),
        trimmed@.len() > 0 ==> !is_white_space(trimmed@.last()),
{
    s.trim_end()
}

/// The name under which the keyring holds the key of the filesystem `uuid`:
/// `bcachefs:` and the UUID's canonical text.
pub fn key_name(uuid: u128) -> (name: String)
    ensures
        name@ == key_name_of(uuid),
{
    let text = uuid_to_text(uuid);
    "bcachefs:".to_owned().concat(text.as_str())
}

/// The magic word that a decrypted key starts with.
pub fn bch_key_magic() -> (magic: u64)
    ensures
        magic == BCH_KEY_MAGIC,
{
    let text = "bch**key";
    let bytes = text.as_bytes();
    proof {
        reveal_strlit("bch**key");
        is_ascii_spec_bytes(text);
        let first = bytes@.take(8);
        assert(first =~= seq![0x62u8, 0x63u8, 0x68u8, 0x2au8, 0x2au8, 0x6bu8, 0x65u8, 0x79u8]);
        reveal_with_fuel(le_value, 9);
        assert(le_value(first) == 0x79656b_2a2a_686362);
    }
    read_u64_le(bytes).unwrap()
}

/// What a lookup in the keyring came to: the key is there if the lookup
/// handed out its number; it is not there if the lookup failed for want of
/// the key; any other failure is an error.
pub open spec fn key_lookup(key_id: i64, errno: i32) -> Result<bool, KeyError> {
    if key_id > 0 {
        Ok(true)
    } else if errno != ENOKEY {
        Err(KeyError::KeyringOperationFailed(errno))
    } else {
        Ok(false)
    }
}

/// Tells what a lookup in the keyring came to, from the number that the
/// lookup returned and the error number that it left behind.
pub fn check_for_key(key_id: i64, errno: i32) -> (found: Result<bool, KeyError>)
    ensures
        found == key_lookup(key_id, errno),
{
    if key_id > 0 {
        Ok(true)
    } else if errno != enokey() {
        Err(KeyError::KeyringOperationFailed(errno))
    } else {
        Ok(false)
    }
}

/// What asking for the passphrase needs of the superblock.
#[derive(Clone, Copy, Debug, PartialEq, Eq)]
pub struct KeyRequest {
    /// The filesystem's UUID, which names its key.
    pub uuid: u128,
    /// The encryption field: the key derivation function, its parameters and
    /// the encrypted key.
    pub crypt: bch_sb_field_crypt,
    /// The nonce under which the key is encrypted.
    pub nonce: nonce,
}

/// Where an attempt to unlock a filesystem stands: what the engine has asked
/// for and not yet been told.
#[derive(Clone, Copy, Debug, PartialEq, Eq)]
pub enum UnlockState {
    /// Waiting for the key: a lookup is under way.
    WaitLookup { uuid: u128 },
    /// Waiting for the key: the pause before the next lookup is under way.
    WaitSleep { uuid: u128 },
    /// Asking: the lookup that comes first is under way.
    AskLookup { request: KeyRequest },
    /// Asking: the passphrase is being read.
    AskPassphrase { request: KeyRequest },
    /// Asking: the key is being derived from the passphrase.
    AskDerive { request: KeyRequest },
    /// Asking: the filesystem's key is being decrypted.
    AskDecrypt { request: KeyRequest },
    /// Asking: the key is being put into the keyring.
    AskInstall,
    /// The attempt is over.
    Finished { result: Result<(), KeyError> },
}

/// What the engine asks for.
#[derive(Debug, PartialEq, Eq)]
pub enum UnlockAction {
    /// Look for the logon key of this name in the user's keyring.
    SearchKey { name: String },
    /// Pause for so many seconds.
    Sleep { seconds: u64 },
    /// Read a passphrase from the terminal, without echo.
    ReadPassphrase { prompt: String },
    /// Derive a key from the passphrase with scrypt and these parameters.
    DeriveKey { passphrase: String, flags: bch_scrypt_flags },
    /// Decrypt the encrypted key with the stream cipher, under this key and
    /// nonce.
    Decrypt { key: bch_key, nonce: nonce, encrypted: bch_encrypted_key },
    /// Put this key into the user's keyring as a logon key of this name.
    AddKey { name: String, payload: bch_key },
    /// Nothing more: the attempt is over, with this result.
    Done { result: Result<(), KeyError> },
}

/// What the engine is told.
#[derive(Debug, PartialEq, Eq)]
pub enum UnlockEvent {
    /// The lookup returned this number and left this error number.
    KeySearched { key_id: i64, errno: i32 },
    /// The pause is over.
    Slept,
    /// This passphrase was read.
    PassphraseRead { passphrase: String },
    /// This key was derived.
    KeyDerived { key: bch_key },
    /// The cipher returned this status and left this in place of the
    /// encrypted key.
    Decrypted { status: i32, decrypted: bch_encrypted_key },
    /// Adding the key returned this number and left this error number.
    KeyAdded { ret: i64, errno: i32 },
}

/// What an [`UnlockAction`] stands for.
pub enum UnlockActionView {
    SearchKey { name: Seq<char> },
    Sleep { seconds: u64 },
    ReadPassphrase { prompt: Seq<char> },
    DeriveKey { passphrase: Seq<char>, flags: bch_scrypt_flags },
    Decrypt { key: bch_key, nonce: nonce, encrypted: bch_encrypted_key },
    AddKey { name: Seq<char>, payload: bch_key },
    Done { result: Result<(), KeyError> },
}

/// What an [`UnlockEvent`] stands for.
pub enum UnlockEventView {
    KeySearched { key_id: i64, errno: i32 },
    Slept,
    PassphraseRead { passphrase: Seq<char> },
    KeyDerived { key: bch_key },
    Decrypted { status: i32, decrypted: bch_encrypted_key },
    KeyAdded { ret: i64, errno: i32 },
}

impl View for UnlockAction {
    type V = UnlockActionView;

    open spec fn view(&self) -> UnlockActionView {
        match *self {
            UnlockAction::SearchKey { name } => UnlockActionView::SearchKey { name: name@ },
            UnlockAction::Sleep { seconds } => UnlockActionView::Sleep { seconds },
            UnlockAction::ReadPassphrase { prompt } => UnlockActionView::ReadPassphrase {
                prompt: prompt@,
            },
            UnlockAction::DeriveKey { passphrase, flags } => UnlockActionView::DeriveKey {
                passphrase: passphrase@,
                flags,
            },
            UnlockAction::Decrypt { key, nonce, encrypted } => UnlockActionView::Decrypt {
                key,
                nonce,
                encrypted,
            },
            UnlockAction::AddKey { name, payload } => UnlockActionView::AddKey {
                name: name@,
                payload,
            },
            UnlockAction::Done { result } => UnlockActionView::Done { result },
        }
    }
}

impl View for UnlockEvent {
    type V = UnlockEventView;

    open spec fn view(&self) -> UnlockEventView {
        match *self {
            UnlockEvent::KeySearched { key_id, errno } => UnlockEventView::KeySearched {
                key_id,
                errno,
            },
            UnlockEvent::Slept => UnlockEventView::Slept,
            UnlockEvent::PassphraseRead { passphrase } => UnlockEventView::PassphraseRead {
                passphrase: passphrase@,
            },
            UnlockEvent::KeyDerived { key } => UnlockEventView::KeyDerived { key },
            UnlockEvent::Decrypted { status, decrypted } => UnlockEventView::Decrypted {
                status,
                decrypted,
            },
            UnlockEvent::KeyAdded { ret, errno } => UnlockEventView::KeyAdded { ret, errno },
        }
    }
}

impl UnlockActionView {
    /// Whether the action reads or changes the keyring.
    pub open spec fn touches_keyring(self) -> bool {
        self is SearchKey || self is AddKey
    }
}

/// The end of an attempt.
pub open spec fn finished(result: Result<(), KeyError>) -> (UnlockState, UnlockActionView) {
    (UnlockState::Finished { result }, UnlockActionView::Done { result })
}

/// The start of waiting for the key of the filesystem `uuid`: a lookup.
pub open spec fn waiting(uuid: u128) -> (UnlockState, UnlockActionView) {
    (UnlockState::WaitLookup { uuid }, UnlockActionView::SearchKey { name: key_name_of(uuid) })
}

/// The start of asking for the key of a filesystem: a lookup, in case the key
/// is there already.
pub open spec fn asking(fs: FileSystemView) -> (UnlockState, UnlockActionView) {
    let request = KeyRequest { uuid: fs.uuid(), crypt: fs.sb.sb.crypt->0, nonce: fs.sb.sb.key_nonce };
    (
        UnlockState::AskLookup { request },
        UnlockActionView::SearchKey { name: key_name_of(request.uuid) },
    )
}

/// The start of an attempt under a policy.
pub open spec fn prepared(fs: FileSystemView, password: PasswordInput) -> (
    UnlockState,
    UnlockActionView,
) {
    match password {
        PasswordInput::Fail => finished(Err(KeyError::NoKeyAvailable)),
        PasswordInput::Wait => waiting(fs.uuid()),
        PasswordInput::Ask => asking(fs),
    }
}

impl UnlockState {
    /// The state and the action that follow when the engine, in this state,
    /// is told `event`; `None` where the event does not answer what the state
    /// asked for. An attempt that is over answers every event with its result.
    pub open spec fn step_of(self, event: UnlockEventView) -> Option<
        (UnlockState, UnlockActionView),
    > {
        match (self, event) {
            (UnlockState::Finished { result }, _) => Some(finished(result)),
            (UnlockState::WaitLookup { uuid }, UnlockEventView::KeySearched { key_id, errno }) => {
                match key_lookup(key_id, errno) {
                    Ok(true) => Some(finished(Ok(()))),
                    Ok(false) => Some(
                        (
                            UnlockState::WaitSleep { uuid },
                            UnlockActionView::Sleep { seconds: POLL_SECONDS },
                        ),
                    ),
                    Err(error) => Some(finished(Err(error))),
                }
            },
            (UnlockState::WaitSleep { uuid }, UnlockEventView::Slept) => Some(waiting(uuid)),
            (
                UnlockState::AskLookup { request },
                UnlockEventView::KeySearched { key_id, errno },
            ) => {
                match key_lookup(key_id, errno) {
                    Ok(true) => Some(finished(Ok(()))),
                    Ok(false) => Some(
                        (
                            UnlockState::AskPassphrase { request },
                            UnlockActionView::ReadPassphrase { prompt: "Enter passphrase: "@ },
                        ),
                    ),
                    Err(error) => Some(finished(Err(error))),
                }
            },
            (
                UnlockState::AskPassphrase { request },
                UnlockEventView::PassphraseRead { passphrase },
            ) => {
                match request.crypt.scrypt_flags() {
                    Some(flags) => Some(
                        (
                            UnlockState::AskDerive { request },
                            UnlockActionView::DeriveKey {
                                passphrase: trimmed_end(passphrase),
                                flags,
                            },
                        ),
                    ),
                    None => Some(finished(Err(KeyError::UnsupportedKdf))),
                }
            },
            (UnlockState::AskDerive { request }, UnlockEventView::KeyDerived { key }) => Some(
                (
                    UnlockState::AskDecrypt { request },
                    UnlockActionView::Decrypt {
                        key,
                        nonce: request.nonce,
                        encrypted: request.crypt.key,
                    },
                ),
            ),
            (
                UnlockState::AskDecrypt { request },
                UnlockEventView::Decrypted { status, decrypted },
            ) => {
                if status != 0 {
                    Some(finished(Err(KeyError::DecryptionFailed)))
                } else if decrypted.magic != BCH_KEY_MAGIC {
                    Some(finished(Err(KeyError::VerificationFailed)))
                } else {
                    Some(
                        (
                            UnlockState::AskInstall,
                            UnlockActionView::AddKey {
                                name: key_name_of(request.uuid),
                                payload: decrypted.key,
                            },
                        ),
                    )
                }
            },
            (UnlockState::AskInstall, UnlockEventView::KeyAdded { ret, errno }) => {
                if ret == -1 {
                    Some(finished(Err(KeyError::KeyringOperationFailed(errno))))
                } else {
                    Some(finished(Ok(())))
                }
            },
            _ => None,
        }
    }
}

/// The end of an attempt.
fn finish(result: Result<(), KeyError>) -> (end: (UnlockState, UnlockAction))
    ensures
        (end.0, end.1@) == finished(result),
{
    (UnlockState::Finished { result }, UnlockAction::Done { result })
}

/// Starts waiting for the key of the filesystem `uuid` to show up in the
/// keyring.
pub fn wait_for_key(uuid: u128) -> (begin: (UnlockState, UnlockAction))
    ensures
        (begin.0, begin.1@) == waiting(uuid),
{
    (UnlockState::WaitLookup { uuid }, UnlockAction::SearchKey { name: key_name(uuid) })
}

/// Starts asking for the passphrase of an encrypted filesystem.
pub fn ask_for_key(fs: &FileSystem) -> (begin: (UnlockState, UnlockAction))
    requires
        fs@.encrypted(),
    ensures
        (begin.0, begin.1@) == asking(fs@),
{
    let sb = fs.sb().get_sb();
    let crypt = *sb.get_crypt().unwrap();
    let request = KeyRequest { uuid: fs.uuid(), crypt, nonce: sb.nonce() };
    (UnlockState::AskLookup { request }, UnlockAction::SearchKey { name: key_name(request.uuid) })
}

/// Starts an attempt to unlock a filesystem under a policy. To fail is to be
/// over at once, with no key; to wait and to ask begin with a lookup in the
/// keyring.
pub fn prepare_key(fs: &FileSystem, password: PasswordInput) -> (begin: (UnlockState, UnlockAction))
    requires
        password is Ask ==> fs@.encrypted(),
    ensures
        (begin.0, begin.1@) == prepared(fs@, password),
{
    match password {
        PasswordInput::Fail => finish(Err(KeyError::NoKeyAvailable)),
        PasswordInput::Wait => wait_for_key(fs.uuid()),
        PasswordInput::Ask => ask_for_key(fs),
    }
}

impl UnlockState {
    /// Takes in what came of the action that the engine asked for last, and
    /// says what is to be done next. An event that does not answer that action
    /// is refused with `None`.
    pub fn step(self, event: UnlockEvent) -> (next: Option<(UnlockState, UnlockAction)>)
        ensures
            match next {
                Some((state, action)) => self.step_of(event@) == Some((state, action@)),
                None => self.step_of(event@) is None,
            },
    {
        match self {
            UnlockState::Finished { result } => Some(finish(result)),
            UnlockState::WaitLookup { uuid } => match event {
                UnlockEvent::KeySearched { key_id, errno } => match check_for_key(key_id, errno) {
                    Ok(true) => Some(finish(Ok(()))),
                    Ok(false) => Some(
                        (
                            UnlockState::WaitSleep { uuid },
                            UnlockAction::Sleep { seconds: POLL_SECONDS },
                        ),
                    ),
                    Err(error) => Some(finish(Err(error))),
                },
                _ => None,
            },
            UnlockState::WaitSleep { uuid } => match event {
                UnlockEvent::Slept => Some(wait_for_key(uuid)),
                _ => None,
            },
            UnlockState::AskLookup { request } => match event {
                UnlockEvent::KeySearched { key_id, errno } => match check_for_key(key_id, errno) {
                    Ok(true) => Some(finish(Ok(()))),
                    Ok(false) => Some(
                        (
                            UnlockState::AskPassphrase { request },
                            UnlockAction::ReadPassphrase {
                                prompt: "Enter passphrase: ".to_owned(),
                            },
                        ),
                    ),
                    Err(error) => Some(finish(Err(error))),
                },
                _ => None,
            },
            UnlockState::AskPassphrase { request } => match event {
                UnlockEvent::PassphraseRead { passphrase } => match request.crypt.get_scrypt_flags() {
                    Some(flags) => Some(
                        (
                            UnlockState::AskDerive { request },
                            UnlockAction::DeriveKey {
                                passphrase: trim_end(passphrase.as_str()).to_owned(),
                                flags,
                            },
                        ),
                    ),
                    None => Some(finish(Err(KeyError::UnsupportedKdf))),
                },
                _ => None,
            },
            UnlockState::AskDerive { request } => match event {
                UnlockEvent::KeyDerived { key } => Some(
                    (
                        UnlockState::AskDecrypt { request },
                        UnlockAction::Decrypt {
                            key,
                            nonce: request.nonce,
                            encrypted: *request.crypt.key(),
                        },
                    ),
                ),
                _ => None,
            },
            UnlockState::AskDecrypt { request } => match event {
                UnlockEvent::Decrypted { status, decrypted } => {
                    if status != 0 {
                        Some(finish(Err(KeyError::DecryptionFailed)))
                    } else if decrypted.magic != bch_key_magic() {
                        Some(finish(Err(KeyError::VerificationFailed)))
                    } else {
                        Some(
                            (
                                UnlockState::AskInstall,
                                UnlockAction::AddKey {
                                    name: key_name(request.uuid),
                                    payload: decrypted.key,
                                },
                            ),
                        )
                    }
                },
                _ => None,
            },
            UnlockState::AskInstall => match event {
                UnlockEvent::KeyAdded { ret, errno } => {
                    if ret == -1 {
                        Some(finish(Err(KeyError::KeyringOperationFailed(errno))))
                    } else {
                        Some(finish(Ok(())))
                    }
                },
                _ => None,
            },
        }
    }
}

/// The actions that the engine asks for when it starts in `state` and is told
/// `events` one after the other. An event that is refused leaves the state as
/// it is and brings no action.
pub open spec fn actions_of(state: UnlockState, events: Seq<UnlockEventView>) -> Seq<
    UnlockActionView,
>
    decreases events.len(),
{
    if events.len() == 0 {
        Seq::empty()
    } else {
        match state.step_of(events.first()) {
            Some((next, action)) => seq![action] + actions_of(next, events.drop_first()),
            None => actions_of(state, events.drop_first()),
        }
    }
}

/// An attempt that is over stays over: whatever it is told, it answers with
/// its result and asks for nothing else.
pub proof fn lemma_finished_is_final(result: Result<(), KeyError>, events: Seq<UnlockEventView>)
    ensures
        forall|k: int|
            0 <= k < actions_of(UnlockState::Finished { result }, events).len()
                ==> #[trigger] actions_of(UnlockState::Finished { result }, events)[k]
                == (UnlockActionView::Done { result }),
    decreases events.len(),
{
    if events.len() > 0 {
        lemma_finished_is_final(result, events.drop_first());
    }
}

/// Under the policy to fail, the attempt is over at once with
/// `NoKeyAvailable`, and nothing that it is told afterwards makes it read or
/// change the keyring.
pub proof fn lemma_fail_policy(fs: FileSystemView, events: Seq<UnlockEventView>)
    ensures
        prepared(fs, PasswordInput::Fail) == finished(Err(KeyError::NoKeyAvailable)),
        !prepared(fs, PasswordInput::Fail).1.touches_keyring(),
        forall|k: int|
            0 <= k < actions_of(prepared(fs, PasswordInput::Fail).0, events).len()
                ==> !(#[trigger] actions_of(
                prepared(fs, PasswordInput::Fail).0,
                events,
            )[k]).touches_keyring(),
{
    lemma_finished_is_final(Err(KeyError::NoKeyAvailable), events);
}

/// Under the policy to wait, a lookup that does not find the key is followed
/// by a pause of one second, and the pause by a lookup of the same name; a
/// lookup that finds the key ends the attempt with success, without a pause;
/// a lookup that fails otherwise ends it with the error number.
pub proof fn lemma_wait_policy(uuid: u128, key_id: i64, errno: i32)
    ensures
        key_id <= 0 && errno == ENOKEY ==> (UnlockState::WaitLookup { uuid }).step_of(
            UnlockEventView::KeySearched { key_id, errno },
        ) == Some(
            (UnlockState::WaitSleep { uuid }, UnlockActionView::Sleep { seconds: POLL_SECONDS }),
        ),
        (UnlockState::WaitSleep { uuid }).step_of(UnlockEventView::Slept) == Some(waiting(uuid)),
        key_id > 0 ==> (UnlockState::WaitLookup { uuid }).step_of(
            UnlockEventView::KeySearched { key_id, errno },
        ) == Some(finished(Ok(()))),
        key_id <= 0 && errno != ENOKEY ==> (UnlockState::WaitLookup { uuid }).step_of(
            UnlockEventView::KeySearched { key_id, errno },
        ) == Some(finished(Err(KeyError::KeyringOperationFailed(errno)))),
{
}

/// What the engine is told while it waits through `rounds` lookups that do
/// not find the key: each lookup's failure for want of the key, then the end
/// of the pause.
pub open spec fn rounds_without_key(rounds: nat, key_id: i64) -> Seq<UnlockEventView>
    decreases rounds,
{
    if rounds == 0 {
        Seq::empty()
    } else {
        seq![UnlockEventView::KeySearched { key_id, errno: ENOKEY }, UnlockEventView::Slept]
            + rounds_without_key((rounds - 1) as nat, key_id)
    }
}

/// `rounds` times a pause of one second and a lookup of the key of `uuid`.
pub open spec fn polling(uuid: u128, rounds: nat) -> Seq<UnlockActionView>
    decreases rounds,
{
    if rounds == 0 {
        Seq::empty()
    } else {
        seq![
            UnlockActionView::Sleep { seconds: POLL_SECONDS },
            UnlockActionView::SearchKey { name: key_name_of(uuid) },
        ] + polling(uuid, (rounds - 1) as nat)
    }
}

/// Under the policy to wait, the engine goes on for as long as the key is not
/// there: after any number of lookups that do not find it, it has paused and
/// looked again each time, and the first lookup that finds the key ends the
/// attempt with success.
pub proof fn lemma_wait_polls_until_found(
    uuid: u128,
    rounds: nat,
    absent: i64,
    found: i64,
    errno: i32,
)
    requires
        absent <= 0,
        found > 0,
    ensures
        actions_of(
            UnlockState::WaitLookup { uuid },
            rounds_without_key(rounds, absent).push(
                UnlockEventView::KeySearched { key_id: found, errno },
            ),
        ) == polling(uuid, rounds).push(UnlockActionView::Done { result: Ok(()) }),
    decreases rounds,
{
    let state = UnlockState::WaitLookup { uuid };
    let last = UnlockEventView::KeySearched { key_id: found, errno };
    let told = rounds_without_key(rounds, absent).push(last);
    let asked = polling(uuid, rounds).push(UnlockActionView::Done { result: Ok(()) });
    if rounds == 0 {
        let over = UnlockState::Finished { result: Ok(()) };
        assert(told.first() == last);
        assert(told.drop_first() =~= Seq::<UnlockEventView>::empty());
        assert(actions_of(over, told.drop_first()) =~= Seq::<UnlockActionView>::empty());
        assert(actions_of(state, told) =~= asked);
    } else {
        let fewer = (rounds - 1) as nat;
        let rest = rounds_without_key(fewer, absent).push(last);
        let pause = UnlockState::WaitSleep { uuid };
        lemma_wait_polls_until_found(uuid, fewer, absent, found, errno);
        assert(told.first() == UnlockEventView::KeySearched { key_id: absent, errno: ENOKEY });
        assert(told.drop_first().first() == UnlockEventView::Slept);
        assert(told.drop_first().drop_first() =~= rest);
        assert(actions_of(pause, told.drop_first()) == seq![
            UnlockActionView::SearchKey { name: key_name_of(uuid) },
        ] + actions_of(state, rest));
        assert(actions_of(state, told) == seq![UnlockActionView::Sleep { seconds: POLL_SECONDS }]
            + actions_of(pause, told.drop_first()));
        assert(actions_of(state, told) =~= asked);
    }
}

/// Under the policy to ask, a key that decrypts to the magic word is put into
/// the keyring under the filesystem's name, and the attempt succeeds once the
/// keyring has taken it. A key that decrypts to anything else ends the
/// attempt with `VerificationFailed`, and nothing is put into the keyring
/// then or later.
pub proof fn lemma_ask_policy(
    request: KeyRequest,
    decrypted: bch_encrypted_key,
    ret: i64,
    errno: i32,
    events: Seq<UnlockEventView>,
)
    ensures
        decrypted.magic == BCH_KEY_MAGIC ==> (UnlockState::AskDecrypt { request }).step_of(
            UnlockEventView::Decrypted { status: 0, decrypted },
        ) == Some(
            (
                UnlockState::AskInstall,
                UnlockActionView::AddKey {
                    name: key_name_of(request.uuid),
                    payload: decrypted.key,
                },
            ),
        ),
        ret != -1 ==> UnlockState::AskInstall.step_of(UnlockEventView::KeyAdded { ret, errno })
            == Some(finished(Ok(()))),
        decrypted.magic != BCH_KEY_MAGIC ==> (UnlockState::AskDecrypt { request }).step_of(
            UnlockEventView::Decrypted { status: 0, decrypted },
        ) == Some(finished(Err(KeyError::VerificationFailed))),
        forall|k: int|
            0 <= k < actions_of(finished(Err(KeyError::VerificationFailed)).0, events).len()
                ==> !(#[trigger] actions_of(
                finished(Err(KeyError::VerificationFailed)).0,
                events,
            )[k] is AddKey),
{
    lemma_finished_is_final(Err(KeyError::VerificationFailed), events);
}

/// What the engine asks for, under the policy to ask, between the first
/// lookup and the decrypted key: the passphrase, the key derived from it
/// without the white space at its end, and the decryption of the filesystem's
/// key.
pub open spec fn asked_up_to_decryption(
    fs: FileSystemView,
    passphrase: Seq<char>,
    derived: bch_key,
) -> Seq<UnlockActionView> {
    let crypt = fs.sb.sb.crypt->0;
    seq![
        UnlockActionView::ReadPassphrase { prompt: "Enter passphrase: "@ },
        UnlockActionView::DeriveKey {
            passphrase: trimmed_end(passphrase),
            flags: crypt.scrypt_flags()->0,
        },
        UnlockActionView::Decrypt { key: derived, nonce: fs.sb.sb.key_nonce, encrypted: crypt.key },
    ]
}

/// Under the policy to ask, with no key in the keyring yet and scrypt as the
/// key derivation function: a passphrase whose key decrypts the filesystem's
/// key to the magic word has the decrypted key put into the keyring under the
/// filesystem's name, and the attempt succeeds when the keyring has taken it;
/// a passphrase whose key decrypts to anything else ends the attempt with
/// `VerificationFailed`, and nothing was put into the keyring.
pub proof fn lemma_ask_unlocks_or_refuses(
    fs: FileSystemView,
    absent: i64,
    passphrase: Seq<char>,
    derived: bch_key,
    decrypted: bch_encrypted_key,
    ret: i64,
    errno: i32,
)
    requires
        fs.encrypted(),
        fs.sb.sb.crypt->0.scrypt_flags() is Some,
        absent <= 0,
    ensures
        prepared(fs, PasswordInput::Ask).1 == (UnlockActionView::SearchKey {
            name: key_name_of(fs.uuid()),
        }),
        ({
            let told = seq![
                UnlockEventView::KeySearched { key_id: absent, errno: ENOKEY },
                UnlockEventView::PassphraseRead { passphrase },
                UnlockEventView::KeyDerived { key: derived },
                UnlockEventView::Decrypted { status: 0, decrypted },
                UnlockEventView::KeyAdded { ret, errno },
            ];
            let asked = actions_of(prepared(fs, PasswordInput::Ask).0, told);
            let before = asked_up_to_decryption(fs, passphrase, derived);
            if decrypted.magic != BCH_KEY_MAGIC {
                asked == before + seq![
                    UnlockActionView::Done { result: Err(KeyError::VerificationFailed) },
                    UnlockActionView::Done { result: Err(KeyError::VerificationFailed) },
                ]
            } else {
                asked == before + seq![
                    UnlockActionView::AddKey {
                        name: key_name_of(fs.uuid()),
                        payload: decrypted.key,
                    },
                    UnlockActionView::Done {
                        result: if ret == -1 {
                            Err(KeyError::KeyringOperationFailed(errno))
                        } else {
                            Ok(())
                        },
                    },
                ]
            }
        }),
{
    let told = seq![
        UnlockEventView::KeySearched { key_id: absent, errno: ENOKEY },
        UnlockEventView::PassphraseRead { passphrase },
        UnlockEventView::KeyDerived { key: derived },
        UnlockEventView::Decrypted { status: 0, decrypted },
        UnlockEventView::KeyAdded { ret, errno },
    ];
    let t1 = told.drop_first();
    let t2 = t1.drop_first();
    let t3 = t2.drop_first();
    let t4 = t3.drop_first();
    let t5 = t4.drop_first();
    assert(t1 =~= seq![told[1], told[2], told[3], told[4]]);
    assert(t2 =~= seq![told[2], told[3], told[4]]);
    assert(t3 =~= seq![told[3], told[4]]);
    assert(t4 =~= seq![told[4]]);
    assert(t5 =~= Seq::<UnlockEventView>::empty());
    let s0 = prepared(fs, PasswordInput::Ask).0;
    let (s1, a1) = s0.step_of(told[0])->0;
    let (s2, a2) = s1.step_of(told[1])->0;
    let (s3, a3) = s2.step_of(told[2])->0;
    let (s4, a4) = s3.step_of(told[3])->0;
    let (s5, a5) = s4.step_of(told[4])->0;
    assert(actions_of(s5, t5) =~= Seq::<UnlockActionView>::empty());
    assert(actions_of(s4, t4) =~= seq![a5]);
    assert(actions_of(s3, t3) =~= seq![a4, a5]);
    assert(actions_of(s2, t2) =~= seq![a3, a4, a5]);
    assert(actions_of(s1, t1) =~= seq![a2, a3, a4, a5]);
    assert(actions_of(s0, told) =~= seq![a1, a2, a3, a4, a5]);
    let before = asked_up_to_decryption(fs, passphrase, derived);
    assert(seq![a1, a2, a3, a4, a5] =~= before + seq![a4, a5]);
}

/// The engine asks for a key to be put into the keyring in one case only:
/// the cipher has succeeded and the decrypted key begins with the magic word.
/// The key it hands over is the decrypted one, under the filesystem's name.
pub proof fn lemma_key_is_added_only_when_verified(state: UnlockState, event: UnlockEventView)
    ensures
        state.step_of(event) matches Some((_, UnlockActionView::AddKey { name, payload }))
            ==> state matches UnlockState::AskDecrypt { request } && event
            matches UnlockEventView::Decrypted { status, decrypted } && status == 0
            && decrypted.magic == BCH_KEY_MAGIC && payload == decrypted.key && name
            == key_name_of(request.uuid),
{
}

/// 16 to the power of `n`.
pub open spec fn pow16(n: nat) -> nat
    decreases n,
{
    if n == 0 {
        1
    } else {
        16 * pow16((n - 1) as nat)
    }
}

/// There are as many digits as were asked for, and each is a digit.
proof fn lemma_hex_digits(value: nat, count: nat)
    ensures
        hex_digits(value, count).len() == count,
        forall|i: int|
            0 <= i < count ==> ('0' <= #[trigger] hex_digits(value, count)[i] <= '9' || 'a'
                <= hex_digits(value, count)[i] <= 'f'),
    decreases count,
{
    if count > 0 {
        lemma_hex_digits(value / 16, (count - 1) as nat);
    }
}

/// Numbers that fit into `count` digits and have the same digits are the
/// same.
proof fn lemma_hex_digits_tell_apart(a: nat, b: nat, count: nat)
    requires
        a < pow16(count),
        b < pow16(count),
        hex_digits(a, count) == hex_digits(b, count),
    ensures
        a == b,
    decreases count,
{
    if count > 0 {
        let rest = (count - 1) as nat;
        let left = hex_digits(a / 16, rest);
        let right = hex_digits(b / 16, rest);
        assert(left.push(hex_digit(a % 16)).drop_last() =~= left);
        assert(right.push(hex_digit(b % 16)).drop_last() =~= right);
        assert(left.push(hex_digit(a % 16)).last() == hex_digit(a % 16));
        assert(right.push(hex_digit(b % 16)).last() == hex_digit(b % 16));
        assert(a % 16 == b % 16);
        lemma_hex_digits_tell_apart(a / 16, b / 16, rest);
    }
}

/// A key name has 45 characters, none of which is the one that ends a C
/// string.
pub proof fn lemma_key_name_shape(uuid: u128)
    ensures
        key_name_of(uuid).len() == 45,
        forall|i: int| 0 <= i < 45 ==> #[trigger] key_name_of(uuid)[i] != '\0',
{
    reveal_strlit("bcachefs:");
    lemma_hex_digits(uuid as nat, 32);
}

/// Filesystems with different UUIDs have different key names.
pub proof fn lemma_key_names_differ(a: u128, b: u128)
    requires
        a != b,
    ensures
        key_name_of(a) != key_name_of(b),
{
    reveal_strlit("bcachefs:");
    lemma_hex_digits(a as nat, 32);
    lemma_hex_digits(b as nat, 32);
    let left = hex_digits(a as nat, 32);
    let right = hex_digits(b as nat, 32);
    if key_name_of(a) == key_name_of(b) {
        assert forall|i: int| 0 <= i < 32 implies left[i] == right[i] by {
            let at = 9 + i + if i < 8 {
                0int
            } else if i < 12 {
                1int
            } else if i < 16 {
                2int
            } else if i < 20 {
                3int
            } else {
                4int
            };
            assert(key_name_of(a)[at] == left[i]);
            assert(key_name_of(b)[at] == right[i]);
        }
        assert(left =~= right);
        assert(pow16(32) == 0x1_0000_0000_0000_0000_0000_0000_0000_0000) by {
            reveal_with_fuel(pow16, 33);
        }
        lemma_hex_digits_tell_apart(a as nat, b as nat, 32);
    }
}

} // verus!
