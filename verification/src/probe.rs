//! The scan of the block devices: what reading a superblock from each device
//! came to, and the registry that gathers the devices of each filesystem
//! under the filesystem's UUID.

use crate::filesystem::{FileSystem, FileSystemView};
use crate::superblock::bch_sb_handle;
use std::collections::HashMap;
use vstd::prelude::*;

verus! {

/// Why no superblock was read from a device.
#[derive(Clone, Copy, Debug, PartialEq, Eq)]
pub enum ProbeError {
    /// The caller may not read the device.
    PermissionDenied,
    /// The device holds something else than this filesystem.
    NotThisFilesystem,
    /// Reading failed otherwise, with this return value.
    Other(i32),
}

/// No filesystem with this UUID was found by the scan.
#[derive(Clone, Copy, Debug, PartialEq, Eq)]
pub struct NotFoundError {
    pub uuid: u128,
}

/// What the attempt to read a superblock from one device came to.
#[derive(Clone, Copy, Debug, PartialEq, Eq)]
pub enum ProbeOutcome {
    /// The device belongs to the filesystem that this superblock describes.
    Identified(bch_sb_handle),
    /// The device holds something else than this filesystem.
    NotThisFilesystem,
    /// The caller may not read the device.
    PermissionDenied,
    /// Reading failed otherwise, with this return value.
    OtherError(i32),
}

/// A device and what probing it came to.
#[derive(Debug, PartialEq, Eq)]
pub struct Probe {
    pub device: String,
    pub outcome: ProbeOutcome,
}

/// What a [`Probe`] stands for.
pub struct ProbeView {
    pub device: Seq<char>,
    pub outcome: ProbeOutcome,
}

impl View for Probe {
    type V = ProbeView;

    open spec fn view(&self) -> ProbeView {
        ProbeView { device: self.device@, outcome: self.outcome }
    }
}

/// The views of a sequence of probes.
pub open spec fn probe_views(probes: Seq<Probe>) -> Seq<ProbeView> {
    probes.map_values(|p: Probe| p@)
}

/// The error number for a lack of permission.
pub const EACCES: i32 = 13;

/// The constant `EACCES` of the libc crate, which is 13 on every Linux
/// target.
#[verifier::external_body]
fn eacces() -> (errno: i32)
    ensures
        errno == EACCES,
{
    libc::EACCES
}

impl ProbeOutcome {
    /// The outcome of an attempt that failed with `error`.
    pub open spec fn of_error(error: ProbeError) -> ProbeOutcome {
        match error {
            ProbeError::PermissionDenied => ProbeOutcome::PermissionDenied,
            ProbeError::NotThisFilesystem => ProbeOutcome::NotThisFilesystem,
            ProbeError::Other(detail) => ProbeOutcome::OtherError(detail),
        }
    }

    /// The error that ends the whole scan, where the outcome is one: a lack of
    /// permission and a device of another kind are passed over.
    pub open spec fn fatal(self) -> Option<ProbeError> {
        match self {
            ProbeOutcome::OtherError(detail) => Some(ProbeError::Other(detail)),
            _ => None,
        }
    }

    /// The outcome of an attempt that failed with `error`.
    pub fn failed(error: ProbeError) -> (outcome: ProbeOutcome)
        ensures
            outcome == Self::of_error(error),
    {
        match error {
            ProbeError::PermissionDenied => ProbeOutcome::PermissionDenied,
            ProbeError::NotThisFilesystem => ProbeOutcome::NotThisFilesystem,
            ProbeError::Other(detail) => ProbeOutcome::OtherError(detail),
        }
    }
}

/// The error that the return value of the superblock reader stands for.
pub open spec fn read_error_of(ret: i32) -> Option<ProbeError> {
    if ret == 0 {
        None
    } else if ret == -EACCES {
        Some(ProbeError::PermissionDenied)
    } else {
        Some(ProbeError::Other(ret))
    }
}

/// Tells the return value of the superblock reader apart: 0 is success, the
/// negative of `EACCES` a lack of permission, anything else another failure.
pub fn read_error(ret: i32) -> (error: Option<ProbeError>)
    ensures
        error == read_error_of(ret),
{
    if ret == 0 {
        None
    } else if ret == -eacces() {
        Some(ProbeError::PermissionDenied)
    } else {
        Some(ProbeError::Other(ret))
    }
}

/// The test for the probes that found the filesystem `uuid`.
pub open spec fn identifies(uuid: u128) -> spec_fn(ProbeView) -> bool {
    |p: ProbeView| p.outcome matches ProbeOutcome::Identified(handle) && handle.sb.uuid() == uuid
}

/// The probes that found the filesystem `uuid`, in the order of the scan.
pub open spec fn identified(probes: Seq<ProbeView>, uuid: u128) -> Seq<ProbeView> {
    probes.filter(identifies(uuid))
}

/// The devices of a sequence of probes.
pub open spec fn devices_of(probes: Seq<ProbeView>) -> Seq<Seq<char>> {
    probes.map_values(|p: ProbeView| p.device)
}

/// The test for the probes that end the scan.
pub open spec fn is_fatal() -> spec_fn(ProbeView) -> bool {
    |p: ProbeView| p.outcome.fatal() is Some
}

/// The filesystems that a scan finds: one for each UUID that a probe found,
/// with the superblock of the first probe that found it and the devices of all
/// the probes that found it, in the order of the scan.
pub open spec fn registry_of(probes: Seq<ProbeView>) -> Map<u128, FileSystemView> {
    Map::new(
        |uuid: u128| identified(probes, uuid).len() > 0,
        |uuid: u128|
            FileSystemView {
                sb: identified(probes, uuid).first().outcome->Identified_0,
                devices: devices_of(identified(probes, uuid)),
            },
    )
}

/// What a scan comes to: the error of the first probe that ends it, or else
/// the filesystems it finds.
pub open spec fn scan(probes: Seq<ProbeView>) -> Result<Map<u128, FileSystemView>, ProbeError> {
    let fatal = probes.filter(is_fatal());
    if fatal.len() > 0 {
        Err(fatal.first().outcome.fatal()->0)
    } else {
        Ok(registry_of(probes))
    }
}

/// The registry after one more device of the filesystem of `handle`: the
/// device joins the filesystem's record, which is made where there is none.
pub open spec fn recorded(
    registry: Map<u128, FileSystemView>,
    handle: bch_sb_handle,
    device: Seq<char>,
) -> Map<u128, FileSystemView> {
    let uuid = handle.sb.uuid();
    if registry.contains_key(uuid) {
        registry.insert(uuid, registry[uuid].with_device(device))
    } else {
        registry.insert(uuid, FileSystemView { sb: handle, devices: seq![device] })
    }
}

/// The registry after one more probe.
pub open spec fn observed(registry: Map<u128, FileSystemView>, probe: ProbeView) -> Map<
    u128,
    FileSystemView,
> {
    match probe.outcome {
        ProbeOutcome::Identified(handle) => recorded(registry, handle, probe.device),
        _ => registry,
    }
}

/// The filesystems found so far, each under its UUID.
#[derive(Debug)]
pub struct Registry {
    records: HashMap<u128, FileSystem>,
}

impl View for Registry {
    type V = Map<u128, FileSystemView>;

    closed spec fn view(&self) -> Map<u128, FileSystemView> {
        self.records@.map_values(|fs: FileSystem| fs@)
    }
}

impl Registry {
    #[verifier::type_invariant]
    spec fn keyed_by_uuid(&self) -> bool {
        forall|uuid: u128| #[trigger]
            self.records@.contains_key(uuid) ==> self.records@[uuid]@.uuid() == uuid
    }

    /// A registry without a filesystem.
    pub fn new() -> (registry: Registry)
        ensures
            registry@ == Map::<u128, FileSystemView>::empty(),
    {
        Registry { records: HashMap::new() }
    }

    /// The registry with one more device of the filesystem of `handle`.
    fn with_record(self, handle: bch_sb_handle, device: String) -> (registry: Registry)
        ensures
            registry@ == recorded(self@, handle, device@),
    {
        proof {
            use_type_invariant(&self);
        }
        let uuid = handle.get_sb().get_uuid();
        let Registry { records } = self;
        let mut records = records;
        let fs = match records.remove(&uuid) {
            Some(fs) => fs,
            None => FileSystem::new(handle),
        };
        let fs = fs.with_device(device);
        records.insert(uuid, fs);
        Registry { records }
    }

    /// Notes that `device` belongs to the filesystem that `handle` describes.
    /// The first handle of a filesystem stays with its record; those that come
    /// later are dropped.
    pub fn record(&mut self, handle: bch_sb_handle, device: String)
        ensures
            final(self)@ == recorded(old(self)@, handle, device@),
    {
        let mut taken = Registry::new();
        core::mem::swap(self, &mut taken);
        *self = taken.with_record(handle, device);
    }

    /// The filesystem with this UUID, if the scan found it.
    pub fn get(&self, uuid: u128) -> (found: Option<&FileSystem>)
        ensures
            match found {
                Some(fs) => self@.contains_key(uuid) && fs@ == self@[uuid] && fs@.uuid() == uuid,
                None => !self@.contains_key(uuid),
            },
    {
        proof {
            use_type_invariant(self);
        }
        self.records.get(&uuid)
    }

    /// The filesystem with this UUID, or the error that the scan did not find
    /// it.
    pub fn find(&self, uuid: u128) -> (found: Result<&FileSystem, NotFoundError>)
        ensures
            match found {
                Ok(fs) => self@.contains_key(uuid) && fs@ == self@[uuid] && fs@.uuid() == uuid,
                Err(error) => !self@.contains_key(uuid) && error == (NotFoundError { uuid }),
            },
    {
        match self.get(uuid) {
            Some(fs) => Ok(fs),
            None => Err(NotFoundError { uuid }),
        }
    }

    /// The number of filesystems.
    pub fn len(&self) -> (n: usize)
        ensures
            n == self@.len(),
    {
        proof {
            assert(self@.dom() =~= self.records@.dom());
        }
        self.records.len()
    }

    /// All the filesystems, each under its UUID.
    pub fn records(&self) -> (records: &HashMap<u128, FileSystem>)
        ensures
            records@.map_values(|fs: FileSystem| fs@) == self@,
    {
        &self.records
    }

    /// Takes in what probing one device came to. A filesystem that was found
    /// is recorded with the device; a device that may not be read or holds
    /// something else is passed over; any other failure is handed back and
    /// leaves the registry as it was.
    pub fn observe(&mut self, probe: Probe) -> (result: Result<(), ProbeError>)
        ensures
            match probe.outcome.fatal() {
                Some(error) => result == Err::<(), ProbeError>(error) && final(self)@ == old(self)@,
                None => result is Ok && final(self)@ == observed(old(self)@, probe@),
            },
    {
        match probe.outcome {
            ProbeOutcome::Identified(handle) => {
                self.record(handle, probe.device);
                Ok(())
            },
            ProbeOutcome::NotThisFilesystem => Ok(()),
            ProbeOutcome::PermissionDenied => Ok(()),
            ProbeOutcome::OtherError(detail) => Err(ProbeError::Other(detail)),
        }
    }
}

/// What one more element behind a sequence adds to what a test picks from it.
proof fn lemma_filter_push<A>(s: Seq<A>, x: A, pred: spec_fn(A) -> bool)
    ensures
        s.push(x).filter(pred) == if pred(x) {
            s.filter(pred).push(x)
        } else {
            s.filter(pred)
        },
{
    reveal(Seq::filter);
    assert(s.push(x).drop_last() =~= s);
}

/// A test picks something from a sequence exactly if an element passes it.
proof fn lemma_filter_some<A>(s: Seq<A>, pred: spec_fn(A) -> bool)
    ensures
        s.filter(pred).len() > 0 <==> exists|i: int| 0 <= i < s.len() && pred(#[trigger] s[i]),
    decreases s.len(),
{
    reveal(Seq::filter);
    if s.len() > 0 {
        lemma_filter_some(s.drop_last(), pred);
        if s.filter(pred).len() > 0 {
            if pred(s.last()) {
                assert(pred(s[s.len() - 1]));
            } else {
                let i = choose|i: int| 0 <= i < s.len() - 1 && pred(#[trigger] s.drop_last()[i]);
                assert(pred(s[i]));
            }
        } else {
            assert forall|i: int| 0 <= i < s.len() implies !pred(#[trigger] s[i]) by {
                if i < s.len() - 1 {
                    assert(s.drop_last()[i] == s[i]);
                }
            }
        }
    }
}

/// Probing one more device changes the registry as [`observed`] says.
pub proof fn lemma_registry_grows(probes: Seq<ProbeView>, probe: ProbeView)
    ensures
        registry_of(probes.push(probe)) == observed(registry_of(probes), probe),
{
    let before = registry_of(probes);
    let after = registry_of(probes.push(probe));
    let expected = observed(before, probe);
    assert forall|uuid: u128| #[trigger]
        after.contains_key(uuid) == expected.contains_key(uuid) && (after.contains_key(uuid)
            ==> after[uuid] == expected[uuid]) by {
        lemma_filter_push(probes, probe, identifies(uuid));
        let found = identified(probes, uuid);
        if identifies(uuid)(probe) {
            assert(devices_of(found.push(probe)) =~= devices_of(found).push(probe.device));
            if found.len() == 0 {
                assert(devices_of(found).push(probe.device) =~= seq![probe.device]);
            }
        }
    }
}

/// A scan that the probe at `at` ends hands back the error of that probe if
/// no probe before it ends the scan.
proof fn lemma_scan_fails(probes: Seq<ProbeView>, at: int)
    requires
        0 <= at < probes.len(),
        probes.take(at).filter(is_fatal()).len() == 0,
        probes[at].outcome.fatal() is Some,
    ensures
        scan(probes) == Err::<Map<u128, FileSystemView>, ProbeError>(
            probes[at].outcome.fatal()->0,
        ),
{
    let head = probes.take(at);
    let tail = probes.skip(at + 1);
    assert(probes =~= head.push(probes[at]) + tail);
    lemma_filter_push(head, probes[at], is_fatal());
    Seq::filter_distributes_over_add(head.push(probes[at]), tail, is_fatal());
}

/// Replays the outcomes of probing the devices, in the order in which the
/// devices were probed, into a fresh registry. The first outcome that is
/// neither a filesystem, nor a lack of permission, nor a device of another
/// kind ends the scan with its error.
pub fn probe_filesystems(probes: &Vec<Probe>) -> (found: Result<Registry, ProbeError>)
    ensures
        match found {
            Ok(registry) => scan(probe_views(probes@)) == Ok::<
                Map<u128, FileSystemView>,
                ProbeError,
            >(registry@),
            Err(error) => scan(probe_views(probes@)) == Err::<
                Map<u128, FileSystemView>,
                ProbeError,
            >(error),
        },
{
    let ghost views = probe_views(probes@);
    let mut registry = Registry::new();
    let mut at: usize = 0;
    proof {
        reveal(Seq::filter);
    }
    while at < probes.len()
        invariant
            at <= probes.len(),
            views == probe_views(probes@),
            views.take(at as int).filter(is_fatal()).len() == 0,
            registry@ == registry_of(views.take(at as int)),
        decreases probes.len() - at,
    {
        let probe = Probe { device: probes[at].device.clone(), outcome: probes[at].outcome };
        proof {
            assert(views.take(at + 1) =~= views.take(at as int).push(probe@));
            lemma_filter_push(views.take(at as int), probe@, is_fatal());
            lemma_registry_grows(views.take(at as int), probe@);
        }
        match registry.observe(probe) {
            Ok(()) => {},
            Err(error) => {
                proof {
                    lemma_scan_fails(views, at as int);
                }
                return Err(error);
            },
        }
        at = at + 1;
    }
    proof {
        assert(views.take(at as int) =~= views);
    }
    Ok(registry)
}

/// The registry is a partition of the probed devices by UUID. A device whose
/// probe found a filesystem stands in the record under that filesystem's
/// UUID, which is the UUID of the record; and a record holds the devices of
/// the probes that found its UUID and no others.
pub proof fn lemma_registry_partitions(probes: Seq<ProbeView>, uuid: u128)
    ensures
        registry_of(probes).contains_key(uuid) <==> exists|i: int|
            0 <= i < probes.len() && identifies(uuid)(#[trigger] probes[i]),
        registry_of(probes).contains_key(uuid) ==> registry_of(probes)[uuid].uuid() == uuid,
        forall|i: int|
            0 <= i < probes.len() && identifies(uuid)(#[trigger] probes[i]) ==> registry_of(
                probes,
            )[uuid].devices.contains(probes[i].device),
        forall|k: int|
            #![trigger registry_of(probes)[uuid].devices[k]]
            registry_of(probes).contains_key(uuid) && 0 <= k < registry_of(
                probes,
            )[uuid].devices.len() ==> exists|i: int|
                0 <= i < probes.len() && identifies(uuid)(#[trigger] probes[i])
                    && probes[i].device == registry_of(probes)[uuid].devices[k],
{
    let found = identified(probes, uuid);
    let record = registry_of(probes)[uuid];
    lemma_filter_some(probes, identifies(uuid));
    if found.len() > 0 {
        probes.lemma_filter_pred(identifies(uuid), 0);
    }
    assert forall|i: int|
        0 <= i < probes.len() && identifies(uuid)(#[trigger] probes[i]) implies record.devices.contains(
        probes[i].device,
    ) by {
        probes.lemma_filter_contains(identifies(uuid), i);
        let k = choose|k: int| 0 <= k < found.len() && found[k] == probes[i];
        assert(record.devices[k] == probes[i].device);
    }
    assert forall|k: int|
        #![trigger registry_of(probes)[uuid].devices[k]]
        registry_of(probes).contains_key(uuid) && 0 <= k < record.devices.len() implies exists|
        i: int,
    |
        0 <= i < probes.len() && identifies(uuid)(#[trigger] probes[i]) && probes[i].device
            == record.devices[k] by {
        probes.lemma_filter_pred(identifies(uuid), k);
        probes.lemma_filter_contains_rev(identifies(uuid), found[k]);
        let i = choose|i: int| 0 <= i < probes.len() && probes[i] == found[k];
        assert(identifies(uuid)(probes[i]));
    }
}

/// The devices of a record stand in the order in which they were probed: of
/// two probes that found the same filesystem, the device of the earlier one
/// comes first in the record.
pub proof fn lemma_devices_in_probe_order(probes: Seq<ProbeView>, uuid: u128, i: int, j: int)
    requires
        0 <= i < j < probes.len(),
        identifies(uuid)(probes[i]),
        identifies(uuid)(probes[j]),
    ensures
        exists|a: int, b: int|
            0 <= a < b < registry_of(probes)[uuid].devices.len() && #[trigger] registry_of(
                probes,
            )[uuid].devices[a] == probes[i].device && #[trigger] registry_of(
                probes,
            )[uuid].devices[b] == probes[j].device,
    decreases probes.len(),
{
    let shorter = probes.drop_last();
    let found = identified(probes, uuid);
    let found_earlier = identified(shorter, uuid);
    let devices = devices_of(found);
    assert(shorter.push(probes.last()) =~= probes);
    lemma_filter_push(shorter, probes.last(), identifies(uuid));
    probes.lemma_filter_contains(identifies(uuid), i);
    shorter.lemma_filter_contains(identifies(uuid), i);
    assert(registry_of(probes)[uuid].devices == devices);
    if j == probes.len() - 1 {
        let a = choose|a: int| 0 <= a < found_earlier.len() && found_earlier[a] == shorter[i];
        let b = found.len() - 1;
        assert(devices[a] == probes[i].device && devices[b] == probes[j].device);
    } else {
        lemma_devices_in_probe_order(shorter, uuid, i, j);
        let earlier = registry_of(shorter)[uuid].devices;
        let (a, b) = choose|a: int, b: int|
            0 <= a < b < earlier.len() && #[trigger] earlier[a] == shorter[i].device
                && #[trigger] earlier[b] == shorter[j].device;
        assert(devices[a] == probes[i].device && devices[b] == probes[j].device);
    }
}

/// A device that may not be read changes nothing: with such a probe put in
/// at any place, the scan comes to what it came to without it.
pub proof fn lemma_permission_denied_is_passed_over(
    probes: Seq<ProbeView>,
    at: int,
    device: Seq<char>,
)
    requires
        0 <= at <= probes.len(),
    ensures
        scan(probes.insert(at, ProbeView { device, outcome: ProbeOutcome::PermissionDenied }))
            == scan(probes),
{
    let denied = ProbeView { device, outcome: ProbeOutcome::PermissionDenied };
    let with = probes.insert(at, denied);
    let head = probes.take(at);
    let tail = probes.skip(at);
    assert(with =~= head.push(denied) + tail);
    assert(probes =~= head + tail);
    assert forall|pred: spec_fn(ProbeView) -> bool| !pred(denied) implies #[trigger] with.filter(
        pred,
    ) == probes.filter(pred) by {
        lemma_filter_push(head, denied, pred);
        Seq::filter_distributes_over_add(head.push(denied), tail, pred);
        Seq::filter_distributes_over_add(head, tail, pred);
    }
    assert(registry_of(with) =~= registry_of(probes));
}

} // verus!
