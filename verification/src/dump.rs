use vstd::prelude::*;

use crate::device::{
    clone_algorithms, clone_memories, AlgorithmV, Device, DeviceV, Memories, Memory,
};
use crate::package::{Board, BoardV, Package, PackageV};
use crate::strmap::{pairs_map, StrMap};

verus! {

/// The pack that a device description comes from.
#[derive(Debug)]
pub struct FromPack {
    pub vendor: String,
    pub pack: String,
    pub version: String,
}

/// [`FromPack`] with its text taken as character sequences.
pub struct FromPackV {
    pub vendor: Seq<char>,
    pub pack: Seq<char>,
    pub version: Seq<char>,
}

impl DeepView for FromPack {
    type V = FromPackV;

    open spec fn deep_view(&self) -> FromPackV {
        FromPackV { vendor: self.vendor@, pack: self.pack@, version: self.version@ }
    }
}

impl Clone for FromPack {
    fn clone(&self) -> (r: FromPack)
        ensures
            r.deep_view() == self.deep_view(),
    {
        FromPack {
            vendor: self.vendor.clone(),
            pack: self.pack.clone(),
            version: self.version.clone(),
        }
    }
}

impl FromPack {
    /// The origin `vendor`, `pack`, `version`.
    pub fn new(vendor: &str, pack: &str, version: &str) -> (r: FromPack)
        ensures
            r.deep_view() == (FromPackV { vendor: vendor@, pack: pack@, version: version@ }),
    {
        FromPack {
            vendor: String::from_str(vendor),
            pack: String::from_str(pack),
            version: String::from_str(version),
        }
    }
}

/// A device as it is written out, with the pack it comes from.
#[derive(Debug)]
pub struct DumpDevice {
    pub name: String,
    pub memories: Memories,
    pub algorithms: Vec<crate::device::Algorithm>,
    pub from_pack: FromPack,
}

/// [`DumpDevice`] with its text taken as character sequences.
pub struct DumpDeviceV {
    pub name: Seq<char>,
    pub memories: Map<Seq<char>, Memory>,
    pub algorithms: Seq<AlgorithmV>,
    pub from_pack: FromPackV,
}

impl DeepView for DumpDevice {
    type V = DumpDeviceV;

    open spec fn deep_view(&self) -> DumpDeviceV {
        DumpDeviceV {
            name: self.name@,
            memories: self.memories.deep_view(),
            algorithms: self.algorithms.deep_view(),
            from_pack: self.from_pack.deep_view(),
        }
    }
}

/// The written-out form of `d`, coming from `from_pack`.
pub open spec fn dump_device_spec(d: DeviceV, from_pack: FromPackV) -> DumpDeviceV {
    DumpDeviceV {
        name: d.name,
        memories: d.memories,
        algorithms: d.algorithms,
        from_pack,
    }
}

impl DumpDevice {
    /// The written-out form of `dev`, coming from `from_pack`.
    pub fn from_device(dev: &Device, from_pack: FromPack) -> (r: DumpDevice)
        ensures
            r.deep_view() == dump_device_spec(dev.deep_view(), from_pack.deep_view()),
    {
        DumpDevice {
            name: dev.name.clone(),
            memories: clone_memories(&dev.memories),
            algorithms: clone_algorithms(&dev.algorithms),
            from_pack,
        }
    }
}

/// The origin of the devices of `p`: its vendor, its name and the version
/// of its latest release.
pub open spec fn from_pack_of(p: PackageV) -> FromPackV {
    FromPackV { vendor: p.vendor, pack: p.name, version: p.releases[0].version }
}

/// The written-out forms of the devices of `p`, by name.
pub open spec fn package_dump_devices(p: PackageV) -> Map<Seq<char>, DumpDeviceV> {
    p.devices.map_values(|d: DeviceV| dump_device_spec(d, from_pack_of(p)))
}

impl Package {
    /// The written-out forms of the devices of the pack, by name.
    pub fn make_dump_devices(&self) -> (r: StrMap<DumpDevice>)
        requires
            self.releases.0.len() > 0,
        ensures
            r.deep_view() == package_dump_devices(self.deep_view()),
    {
        let from_pack = FromPack::new(
            self.vendor.as_str(),
            self.name.as_str(),
            self.releases.latest_release().version.as_str(),
        );
        let ghost fp = from_pack.deep_view();
        let ghost f = |d: DeviceV| dump_device_spec(d, fp);
        let entries = self.devices.0.entries();
        let mut out: StrMap<DumpDevice> = StrMap::new();
        let mut i: usize = 0;
        assert(pairs_map(entries@.take(0)).map_values(f) =~= Map::<Seq<char>, DumpDeviceV>::empty());
        while i < entries.len()
            invariant
                i <= entries.len(),
                self.devices.deep_view() == pairs_map(entries@),
                f == (|d: DeviceV| dump_device_spec(d, fp)),
                fp == from_pack.deep_view(),
                out.deep_view() == pairs_map(entries@.take(i as int)).map_values(f),
            decreases entries.len() - i,
        {
            assert(entries@.take(i + 1).drop_last() =~= entries@.take(i as int));
            let ghost before = pairs_map(entries@.take(i as int));
            let d = DumpDevice::from_device(&entries[i].1, from_pack.clone());
            out.insert(entries[i].0.clone(), d);
            assert(out.deep_view() =~= pairs_map(entries@.take(i + 1)).map_values(f));
            i += 1;
        }
        assert(entries@.take(entries.len() as int) =~= entries@);
        out
    }
}

/// Whether every one of `ps` has a release.
pub open spec fn all_released(ps: Seq<PackageV>) -> bool {
    forall|i: int| 0 <= i < ps.len() ==> (#[trigger] ps[i]).releases.len() > 0
}

/// The written-out devices of the packs `ps`, by name; a device of a later
/// pack replaces one of the same name from an earlier pack.
pub open spec fn all_dump_devices(ps: Seq<PackageV>) -> Map<Seq<char>, DumpDeviceV>
    decreases ps.len(),
{
    if ps.len() == 0 {
        Map::empty()
    } else {
        all_dump_devices(ps.drop_last()).union_prefer_right(package_dump_devices(ps.last()))
    }
}

/// `m` with each of `bs` set under its name, in order.
pub open spec fn insert_boards(m: Map<Seq<char>, BoardV>, bs: Seq<BoardV>) -> Map<
    Seq<char>,
    BoardV,
>
    decreases bs.len(),
{
    if bs.len() == 0 {
        m
    } else {
        insert_boards(m, bs.drop_last()).insert(bs.last().name, bs.last())
    }
}

/// The boards of the packs `ps`, by name; a later board replaces an earlier
/// one of the same name.
pub open spec fn all_boards(ps: Seq<PackageV>) -> Map<Seq<char>, BoardV>
    decreases ps.len(),
{
    if ps.len() == 0 {
        Map::empty()
    } else {
        insert_boards(all_boards(ps.drop_last()), ps.last().boards)
    }
}

/// The written-out devices of all of `pdscs`, by name; a device of a later
/// pack replaces one of the same name from an earlier pack.
pub fn collect_dump_devices(pdscs: &Vec<Package>) -> (r: StrMap<DumpDevice>)
    requires
        all_released(pdscs.deep_view()),
    ensures
        r.deep_view() == all_dump_devices(pdscs.deep_view()),
{
    let ghost ps = pdscs.deep_view();
    let mut out: StrMap<DumpDevice> = StrMap::new();
    let mut i: usize = 0;
    while i < pdscs.len()
        invariant
            i <= pdscs.len(),
            ps == pdscs.deep_view(),
            all_released(ps),
            out.deep_view() == all_dump_devices(ps.take(i as int)),
        decreases pdscs.len() - i,
    {
        assert(ps.take(i + 1).drop_last() =~= ps.take(i as int));
        assert(ps.take(i + 1).last() == pdscs@[i as int].deep_view());
        assert(ps[i as int].releases.len() > 0);
        let devices = pdscs[i].make_dump_devices();
        out.extend(devices);
        i += 1;
    }
    assert(ps.take(pdscs.len() as int) =~= ps);
    out
}

/// The boards of all of `pdscs`, by name; a later board replaces an earlier
/// one of the same name.
pub fn collect_boards(pdscs: &Vec<Package>) -> (r: StrMap<Board>)
    ensures
        r.deep_view() == all_boards(pdscs.deep_view()),
{
    let ghost ps = pdscs.deep_view();
    let mut out: StrMap<Board> = StrMap::new();
    let mut i: usize = 0;
    while i < pdscs.len()
        invariant
            i <= pdscs.len(),
            ps == pdscs.deep_view(),
            out.deep_view() == all_boards(ps.take(i as int)),
        decreases pdscs.len() - i,
    {
        assert(ps.take(i + 1).drop_last() =~= ps.take(i as int));
        assert(ps.take(i + 1).last() == pdscs@[i as int].deep_view());
        let boards = &pdscs[i].boards;
        let ghost bs = boards.deep_view();
        let ghost start = out.deep_view();
        let mut k: usize = 0;
        while k < boards.len()
            invariant
                k <= boards.len(),
                bs == boards.deep_view(),
                out.deep_view() == insert_boards(start, bs.take(k as int)),
            decreases boards.len() - k,
        {
            assert(bs.take(k + 1).drop_last() =~= bs.take(k as int));
            assert(bs.take(k + 1).last() == boards@[k as int].deep_view());
            out.insert(boards[k].name.clone(), boards[k].clone());
            k += 1;
        }
        assert(bs.take(boards.len() as int) =~= bs);
        i += 1;
    }
    assert(ps.take(pdscs.len() as int) =~= ps);
    out
}

/// The devices of `old` with those of `new` added, a device of `new`
/// replacing one of the same name in `old`.
pub fn merge_dump_devices(old: StrMap<DumpDevice>, new: StrMap<DumpDevice>) -> (r: StrMap<
    DumpDevice,
>)
    ensures
        r.deep_view() == old.deep_view().union_prefer_right(new.deep_view()),
{
    let mut all = old;
    all.extend(new);
    all
}

} // verus!
