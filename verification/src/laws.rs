//! Properties of the library that span its functions.
use vstd::prelude::*;

use crate::check::{
    component_unknowns, condition_lookup_spec, duplicate_ids, file_count, file_unknowns,
    knows_condition, unknown_conditions, UnknownConditionV,
};
use crate::condition::ConditionV;
use crate::dump::all_dump_devices;
use crate::component::{
    bundle_spec, category_of, component_builder_spec, component_child_spec, file_attribute_of,
    file_ref_spec, with_bundle_defaults, ComponentBuilderV,
};
use crate::condition::{condition_spec, count_named};
use crate::parse::{hex_or_dec_value, ParseErrorV};
use crate::release::release_spec;
use crate::text::has_substring;
use crate::device::{
    add_parent_spec, algorithm_spec, builder_after, builder_spec, devices_list_spec,
    build_all, build_spec, insert_devices, mem_elem_spec, parse_device_spec, parse_family_spec,
    parse_sub_family_spec, sub_family_devices, family_builders, variants_spec, with_parent,
    AlgorithmV, DeviceBuilderV, DeviceV, Memory,
};
use crate::dump::{all_boards, insert_boards, package_dump_devices};
use crate::release::releases_spec;
use crate::package::{
    board_spec, components_of, mounted_devices_spec, package_header_spec, package_spec, BoardV,
    ComponentV, PackageV,
};
use crate::component::FileRefV;
use crate::xml::{attr_of, child_in, XmlElem};

verus! {

/// Inserting devices under their names keeps every device of the map under
/// its own name.
proof fn lemma_insert_devices_named(m: Map<Seq<char>, DeviceV>, ds: Seq<DeviceV>)
    requires
        forall|k: Seq<char>| #[trigger] m.dom().contains(k) ==> m[k].name == k,
    ensures
        forall|k: Seq<char>|
            #[trigger] insert_devices(m, ds).dom().contains(k) ==> insert_devices(m, ds)[k].name == k,
    decreases ds.len(),
{
    if ds.len() > 0 {
        lemma_insert_devices_named(m, ds.drop_last());
        let prev = insert_devices(m, ds.drop_last());
        assert forall|k: Seq<char>| #[trigger] insert_devices(m, ds).dom().contains(k) implies insert_devices(
            m,
            ds,
        )[k].name == k by {
            if k != ds.last().name {
                assert(prev.dom().contains(k));
            }
        }
    }
}

/// Every device that a `devices` element yields is found under its own
/// name.
pub proof fn law_devices_keyed_by_name(families: Seq<XmlElem>)
    ensures
        devices_list_spec(families) matches Ok(m) ==> forall|k: Seq<char>|
            #[trigger] m.dom().contains(k) ==> m[k].name == k,
    decreases families.len(),
{
    if families.len() > 0 {
        law_devices_keyed_by_name(families.drop_last());
        if let Ok(m) = devices_list_spec(families.drop_last()) {
            if let Ok(ds) = crate::device::parse_family_spec(families.last()) {
                lemma_insert_devices_named(m, ds);
            }
        }
    }
}

/// A device inherits from its parent without losing anything of its own:
/// it keeps its own name where it has one, its own memories under their
/// names, its own algorithms first, and gains every memory name and every
/// algorithm of the parent.
pub proof fn law_add_parent_keeps_own(child: DeviceBuilderV, parent: DeviceBuilderV)
    ensures
        child.name is Some ==> add_parent_spec(child, parent).name == child.name,
        child.name is None ==> add_parent_spec(child, parent).name == parent.name,
        forall|k: Seq<char>|
            #[trigger] child.memories.dom().contains(k) ==> add_parent_spec(
                child,
                parent,
            ).memories[k] == child.memories[k],
        forall|k: Seq<char>|
            #[trigger] parent.memories.dom().contains(k) && !child.memories.dom().contains(k)
                ==> add_parent_spec(child, parent).memories[k] == parent.memories[k],
        add_parent_spec(child, parent).memories.dom() == child.memories.dom().union(
            parent.memories.dom(),
        ),
        add_parent_spec(child, parent).algorithms.take(child.algorithms.len() as int)
            == child.algorithms,
        add_parent_spec(child, parent).algorithms.skip(child.algorithms.len() as int)
            == parent.algorithms,
{
    let r = add_parent_spec(child, parent);
    assert(r.memories.dom() =~= child.memories.dom().union(parent.memories.dom()));
    assert(r.algorithms.take(child.algorithms.len() as int) =~= child.algorithms);
    assert(r.algorithms.skip(child.algorithms.len() as int) =~= parent.algorithms);
}

/// Merging a memory map with itself changes nothing.
pub proof fn law_merge_memories_idempotent(m: Map<Seq<char>, Memory>)
    ensures
        m.union_prefer_right(m) == m,
{
    assert(m.union_prefer_right(m) =~= m);
}

/// A `device` element yields one description per `variant` child, or
/// itself alone where it has none; each description has every memory that
/// the device element declares.
pub proof fn law_device_variants(e: XmlElem)
    ensures
        variants_spec(e.children@).len() == 0 ==> parse_device_spec(e) == seq![
            builder_after(e, e.children@),
        ],
        variants_spec(e.children@).len() > 0 ==> parse_device_spec(e).len() == variants_spec(
            e.children@,
        ).len(),
        forall|i: int, k: Seq<char>|
            0 <= i < parse_device_spec(e).len() && builder_after(
                e,
                e.children@,
            ).memories.dom().contains(k) ==> #[trigger] parse_device_spec(
                e,
            )[i].memories.dom().contains(k),
{
}

/// Completing the components of a bundle keeps their number, and keeps the
/// class, version and vendor that a component names itself.
pub proof fn law_bundle_defaults_keep_own(
    cs: Seq<ComponentBuilderV>,
    class: Seq<char>,
    version: Seq<char>,
    vendor: Option<Seq<char>>,
)
    ensures
        ({
            let r = cs.map_values(
                |c: ComponentBuilderV| with_bundle_defaults(c, class, version, vendor),
            );
            &&& r.len() == cs.len()
            &&& forall|i: int|
                0 <= i < cs.len() ==> {
                    &&& (#[trigger] cs[i]).class is Some ==> r[i].class == cs[i].class
                    &&& cs[i].version is Some ==> r[i].version == cs[i].version
                    &&& cs[i].vendor is Some ==> r[i].vendor == cs[i].vendor
                    &&& r[i].class is Some
                    &&& r[i].version is Some
                    &&& r[i].group == cs[i].group
                    &&& r[i].files == cs[i].files
                }
        }),
{
}

/// Every reference to an undefined condition that the files of a
/// component yield names a condition that the pack does not define.
proof fn lemma_file_unknowns_unknown(files: Seq<FileRefV>, c: ComponentV, p: PackageV)
    ensures
        forall|i: int|
            0 <= i < file_unknowns(files, c, p).len() ==> !knows_condition(
                p,
                #[trigger] file_unknowns(files, c, p)[i].condition,
            ),
    decreases files.len(),
{
    if files.len() > 0 {
        lemma_file_unknowns_unknown(files.drop_last(), c, p);
    }
}

/// Every reference that a check reports as unknown names a condition that
/// the pack does not define.
pub proof fn law_unknown_conditions_are_undefined(cs: Seq<ComponentV>, p: PackageV)
    ensures
        forall|i: int|
            0 <= i < unknown_conditions(cs, p).len() ==> !knows_condition(
                p,
                #[trigger] unknown_conditions(cs, p)[i].condition,
            ),
    decreases cs.len(),
{
    if cs.len() > 0 {
        law_unknown_conditions_are_undefined(cs.drop_last(), p);
        let c = cs.last();
        lemma_file_unknowns_unknown(c.files, c, p);
        let rest = unknown_conditions(cs.drop_last(), p);
        let own = component_unknowns(c, p);
        assert forall|i: int| 0 <= i < unknown_conditions(cs, p).len() implies !knows_condition(
            p,
            #[trigger] unknown_conditions(cs, p)[i].condition,
        ) by {
            if i >= rest.len() {
                let j = i - rest.len();
                assert(unknown_conditions(cs, p)[i] == own[j]);
                let head = match c.condition {
                    Some(n) => if knows_condition(p, n) {
                        Seq::<crate::check::UnknownConditionV>::empty()
                    } else {
                        seq![crate::check::UnknownConditionV { class: c.class, group: c.group, file: None, condition: n }]
                    },
                    None => Seq::empty(),
                };
                if j >= head.len() {
                    assert(own[j] == file_unknowns(c.files, c, p)[j - head.len()]);
                }
            }
        }
    }
}

/// Boards are found under their own names once collected.
proof fn lemma_insert_boards_named(m: Map<Seq<char>, BoardV>, bs: Seq<BoardV>)
    requires
        forall|k: Seq<char>| #[trigger] m.dom().contains(k) ==> m[k].name == k,
    ensures
        forall|k: Seq<char>|
            #[trigger] insert_boards(m, bs).dom().contains(k) ==> insert_boards(m, bs)[k].name == k,
    decreases bs.len(),
{
    if bs.len() > 0 {
        lemma_insert_boards_named(m, bs.drop_last());
        let prev = insert_boards(m, bs.drop_last());
        assert forall|k: Seq<char>| #[trigger] insert_boards(m, bs).dom().contains(k) implies insert_boards(
            m,
            bs,
        )[k].name == k by {
            if k != bs.last().name {
                assert(prev.dom().contains(k));
            }
        }
    }
}

/// Every collected board is found under its own name, and the last pack
/// that has a board of a name decides that board.
pub proof fn law_boards_keyed_by_name(ps: Seq<PackageV>)
    ensures
        forall|k: Seq<char>|
            #[trigger] all_boards(ps).dom().contains(k) ==> all_boards(ps)[k].name == k,
    decreases ps.len(),
{
    if ps.len() > 0 {
        law_boards_keyed_by_name(ps.drop_last());
        lemma_insert_boards_named(all_boards(ps.drop_last()), ps.last().boards);
    }
}

/// A `releases` element that reads holds at least one release, so that a
/// latest release exists.
pub proof fn law_releases_nonempty(e: XmlElem)
    ensures
        releases_spec(e) matches Ok(v) ==> v.len() > 0,
{
}

/// Where the devices of a pack are found under their own names, so are
/// their written-out forms.
pub proof fn law_dump_devices_keyed_by_name(p: PackageV)
    requires
        forall|k: Seq<char>| #[trigger] p.devices.dom().contains(k) ==> p.devices[k].name == k,
    ensures
        forall|k: Seq<char>|
            #[trigger] package_dump_devices(p).dom().contains(k) ==> package_dump_devices(
                p,
            )[k].name == k,
{
}

/// After a value is set for a key, looking the key up gives that value,
/// and every other key keeps what it had.
pub proof fn law_lookup_after_insert<V>(m: Map<Seq<char>, V>, k: Seq<char>, v: V, other: Seq<char>)
    requires
        other != k,
    ensures
        m.insert(k, v).dom().contains(k),
        m.insert(k, v)[k] == v,
        m.insert(k, v).dom().contains(other) == m.dom().contains(other),
        m.dom().contains(other) ==> m.insert(k, v)[other] == m[other],
{
}

/// The children among `cs` named `name`, in order.
pub open spec fn children_named(cs: Seq<XmlElem>, name: Seq<char>) -> Seq<XmlElem>
    decreases cs.len(),
{
    if cs.len() == 0 {
        Seq::empty()
    } else if cs.last().name@ == name {
        children_named(cs.drop_last(), name).push(cs.last())
    } else {
        children_named(cs.drop_last(), name)
    }
}

/// The memories that the `memory` elements `ms` declare, applied in order.
pub open spec fn memories_from(ms: Seq<XmlElem>) -> Map<Seq<char>, Memory>
    decreases ms.len(),
{
    if ms.len() == 0 {
        Map::empty()
    } else {
        match mem_elem_spec(ms.last()) {
            Ok((n, m)) => memories_from(ms.drop_last()).insert(n, m),
            Err(_) => memories_from(ms.drop_last()),
        }
    }
}

/// The algorithms that the `algorithm` elements `algs` declare, in order.
pub open spec fn algorithms_from(algs: Seq<XmlElem>) -> Seq<AlgorithmV>
    decreases algs.len(),
{
    if algs.len() == 0 {
        Seq::empty()
    } else {
        match algorithm_spec(algs.last()) {
            Ok(a) => algorithms_from(algs.drop_last()).push(a),
            Err(_) => algorithms_from(algs.drop_last()),
        }
    }
}

/// The builder of a device element depends on its children only through
/// its `memory` children and its `algorithm` children, each in their order.
proof fn lemma_builder_after_split(e: XmlElem, cs: Seq<XmlElem>)
    ensures
        builder_after(e, cs) == (DeviceBuilderV {
            name: builder_spec(e).name,
            algorithms: algorithms_from(children_named(cs, "algorithm"@)),
            memories: memories_from(children_named(cs, "memory"@)),
        }),
    decreases cs.len(),
{
    reveal_strlit("memory");
    reveal_strlit("algorithm");
    assert("memory"@.len() == 6 && "algorithm"@.len() == 9);
    if cs.len() == 0 {
        assert(builder_spec(e).algorithms =~= algorithms_from(children_named(cs, "algorithm"@)));
    } else {
        lemma_builder_after_split(e, cs.drop_last());
        let c = cs.last();
        let ms = children_named(cs.drop_last(), "memory"@);
        let algs = children_named(cs.drop_last(), "algorithm"@);
        if c.name@ == "memory"@ {
            assert(ms.push(c).drop_last() =~= ms);
        } else if c.name@ == "algorithm"@ {
            assert(algs.push(c).drop_last() =~= algs);
        }
    }
}

/// The builders that the variants among `cs` start are those of their
/// `variant` children, in order.
proof fn lemma_variants_split(cs: Seq<XmlElem>)
    ensures
        variants_spec(cs) == children_named(cs, "variant"@).map_values(
            |v: XmlElem| builder_spec(v),
        ),
    decreases cs.len(),
{
    if cs.len() > 0 {
        lemma_variants_split(cs.drop_last());
        let vs = children_named(cs.drop_last(), "variant"@);
        let f = |v: XmlElem| builder_spec(v);
        if cs.last().name@ == "variant"@ {
            assert(vs.push(cs.last()).map_values(f) =~= vs.map_values(f).push(builder_spec(cs.last())));
        }
    } else {
        assert(children_named(cs, "variant"@).map_values(|v: XmlElem| builder_spec(v))
            =~= Seq::<DeviceBuilderV>::empty());
    }
}

/// Two `device` elements with the same attributes, whose `variant`,
/// `memory` and `algorithm` children are the same and in the same order
/// among themselves, describe the same devices, however these children are
/// interleaved and whatever other children stand between them. In
/// particular every variant gets every memory and algorithm of its device,
/// also those listed after it.
pub proof fn law_device_children_order(e1: XmlElem, e2: XmlElem)
    requires
        e1.attrs@ == e2.attrs@,
        children_named(e1.children@, "variant"@) == children_named(e2.children@, "variant"@),
        children_named(e1.children@, "memory"@) == children_named(e2.children@, "memory"@),
        children_named(e1.children@, "algorithm"@) == children_named(e2.children@, "algorithm"@),
    ensures
        parse_device_spec(e1) == parse_device_spec(e2),
        forall|i: int|
            0 <= i < parse_device_spec(e1).len() ==> #[trigger] parse_device_spec(e1)[i].algorithms.skip(
                parse_device_spec(e1)[i].algorithms.len() - algorithms_from(
                    children_named(e1.children@, "algorithm"@),
                ).len(),
            ) == algorithms_from(children_named(e1.children@, "algorithm"@)),
        forall|i: int, k: Seq<char>|
            0 <= i < parse_device_spec(e1).len() && memories_from(
                children_named(e1.children@, "memory"@),
            ).dom().contains(k) ==> #[trigger] parse_device_spec(e1)[i].memories.dom().contains(k),
{
    lemma_builder_after_split(e1, e1.children@);
    lemma_builder_after_split(e2, e2.children@);
    lemma_variants_split(e1.children@);
    lemma_variants_split(e2.children@);
    assert(builder_spec(e1) == builder_spec(e2));
    let d = builder_after(e1, e1.children@);
    let vs = variants_spec(e1.children@);
    if vs.len() > 0 {
        assert forall|i: int|
            0 <= i < parse_device_spec(e1).len() implies #[trigger] parse_device_spec(e1)[i].algorithms.skip(
            parse_device_spec(e1)[i].algorithms.len() - d.algorithms.len(),
        ) == d.algorithms by {
            let b = parse_device_spec(e1)[i];
            assert(b == add_parent_spec(vs[i], d));
            assert(b.algorithms.skip(b.algorithms.len() - d.algorithms.len()) =~= d.algorithms);
        }
    } else {
        assert(parse_device_spec(e1)[0].algorithms.skip(0) =~= d.algorithms);
    }
}

/// A device of a sub-family of a family has, under each memory name, the
/// memory of the innermost of the three that declares it.
pub proof fn law_innermost_memory_wins(
    device: DeviceBuilderV,
    sub_family: DeviceBuilderV,
    family: DeviceBuilderV,
    k: Seq<char>,
)
    ensures
        ({
            let m = add_parent_spec(add_parent_spec(device, sub_family), family).memories;
            &&& m.dom().contains(k) <==> (device.memories.dom().contains(k)
                || sub_family.memories.dom().contains(k) || family.memories.dom().contains(k))
            &&& device.memories.dom().contains(k) ==> m[k] == device.memories[k]
            &&& !device.memories.dom().contains(k) && sub_family.memories.dom().contains(k)
                ==> m[k] == sub_family.memories[k]
            &&& !device.memories.dom().contains(k) && !sub_family.memories.dom().contains(k)
                && family.memories.dom().contains(k) ==> m[k] == family.memories[k]
        }),
{
}

/// Every device that a `subFamily` element yields ends, after its own
/// algorithms, with exactly the algorithms that the sub-family's
/// `algorithm` children declare, in order; and it has every memory name
/// that the sub-family's `memory` children declare.
pub proof fn law_sub_family_passes_down(e: XmlElem)
    ensures
        forall|i: int|
            0 <= i < parse_sub_family_spec(e).len() ==> {
                let a = (#[trigger] parse_sub_family_spec(e)[i]).algorithms;
                let own = algorithms_from(children_named(e.children@, "algorithm"@));
                &&& a.len() >= own.len()
                &&& a.skip(a.len() - own.len()) == own
            },
        forall|i: int, k: Seq<char>|
            0 <= i < parse_sub_family_spec(e).len() && memories_from(
                children_named(e.children@, "memory"@),
            ).dom().contains(k) ==> #[trigger] parse_sub_family_spec(e)[i].memories.dom().contains(
                k,
            ),
{
    lemma_builder_after_split(e, e.children@);
    let b = builder_after(e, e.children@);
    assert forall|i: int| 0 <= i < parse_sub_family_spec(e).len() implies {
        let a = (#[trigger] parse_sub_family_spec(e)[i]).algorithms;
        let own = algorithms_from(children_named(e.children@, "algorithm"@));
        &&& a.len() >= own.len()
        &&& a.skip(a.len() - own.len()) == own
    } by {
        let d = sub_family_devices(e.children@)[i];
        assert(parse_sub_family_spec(e)[i] == add_parent_spec(d, b));
        let a = parse_sub_family_spec(e)[i].algorithms;
        assert(a.skip(a.len() - b.algorithms.len()) =~= b.algorithms);
    }
}

/// What building a list of builders gives: the same number of devices,
/// each with the name, memories and algorithms of its builder.
proof fn lemma_build_all_keeps(bs: Seq<DeviceBuilderV>)
    ensures
        build_all(bs) matches Ok(ds) ==> {
            &&& ds.len() == bs.len()
            &&& forall|i: int|
                0 <= i < ds.len() ==> {
                    &&& bs[i].name == Some((#[trigger] ds[i]).name)
                    &&& ds[i].memories == bs[i].memories
                    &&& ds[i].algorithms == bs[i].algorithms
                }
        },
    decreases bs.len(),
{
    if bs.len() > 0 {
        lemma_build_all_keeps(bs.drop_last());
    }
}

/// Every device that a family element yields ends, after its own and its
/// sub-family's algorithms, with exactly the algorithms that the family's
/// `algorithm` children declare, in order; and it has every memory name
/// that the family's `memory` children declare.
pub proof fn law_family_passes_down(e: XmlElem)
    ensures
        parse_family_spec(e) matches Ok(ds) ==> forall|i: int|
            0 <= i < ds.len() ==> {
                let a = (#[trigger] ds[i]).algorithms;
                let own = algorithms_from(children_named(e.children@, "algorithm"@));
                &&& a.len() >= own.len()
                &&& a.skip(a.len() - own.len()) == own
            },
        parse_family_spec(e) matches Ok(ds) ==> forall|i: int, k: Seq<char>|
            0 <= i < ds.len() && memories_from(children_named(e.children@, "memory"@)).dom().contains(
                k,
            ) ==> #[trigger] ds[i].memories.dom().contains(k),
{
    lemma_builder_after_split(e, e.children@);
    let b = builder_after(e, e.children@);
    let bs = with_parent(family_builders(e.children@), b);
    lemma_build_all_keeps(bs);
    if let Ok(ds) = parse_family_spec(e) {
        assert forall|i: int| 0 <= i < ds.len() implies {
            let a = (#[trigger] ds[i]).algorithms;
            let own = algorithms_from(children_named(e.children@, "algorithm"@));
            &&& a.len() >= own.len()
            &&& a.skip(a.len() - own.len()) == own
        } by {
            assert(bs[i] == add_parent_spec(family_builders(e.children@)[i], b));
            let a = ds[i].algorithms;
            assert(a.skip(a.len() - b.algorithms.len()) =~= b.algorithms);
        }
        assert forall|i: int, k: Seq<char>|
            0 <= i < ds.len() && memories_from(children_named(e.children@, "memory"@)).dom().contains(
                k,
            ) implies #[trigger] ds[i].memories.dom().contains(k) by {
            assert(bs[i] == add_parent_spec(family_builders(e.children@)[i], b));
        }
    }
}

/// The file count of a check adds up the files of the components, whatever
/// their conditions: a single component counts its files, and the count of
/// two lists together is the sum of their counts.
pub proof fn law_file_count_adds_up(a: Seq<ComponentV>, b: Seq<ComponentV>, c: ComponentV)
    ensures
        file_count(Seq::empty()) == 0,
        file_count(seq![c]) == c.files.len(),
        file_count(a + b) == file_count(a) + file_count(b),
    decreases b.len(),
{
    assert(seq![c].drop_last() =~= Seq::<ComponentV>::empty());
    if b.len() > 0 {
        law_file_count_adds_up(a, b.drop_last(), c);
        assert((a + b).drop_last() =~= a + b.drop_last());
        assert((a + b).last() == b.last());
    } else {
        assert(a + b =~= a);
    }
}

/// Completing the components of a pack keeps their number and order; it
/// fills in the vendor (the pack's, where the component names none), the
/// class and group it names, and the version (the latest release's, where
/// it names none), and keeps every other field of the component as read.
pub proof fn law_components_complete_fields(p: PackageV)
    ensures
        components_of(p).len() == p.components.len(),
        forall|i: int|
            0 <= i < p.components.len() ==> {
                let c = p.components[i];
                let r = #[trigger] components_of(p)[i];
                &&& c.vendor matches Some(v) ==> r.vendor == v
                &&& c.vendor is None ==> r.vendor == p.vendor
                &&& c.class matches Some(x) ==> r.class == x
                &&& c.group matches Some(x) ==> r.group == x
                &&& c.version matches Some(v) ==> r.version == v
                &&& c.version is None ==> r.version == p.releases[0].version
                &&& r.sub_group == c.sub_group
                &&& r.variant == c.variant
                &&& r.api_version == c.api_version
                &&& r.condition == c.condition
                &&& r.max_instances == c.max_instances
                &&& r.is_default == c.is_default
                &&& r.deprecated == c.deprecated
                &&& r.description == c.description
                &&& r.rte_addition == c.rte_addition
                &&& r.files == c.files
            },
{
}

/// The written-out form of each device of a pack carries the device's own
/// name, memories and algorithms, and names the pack's vendor, the pack and
/// its latest release; there is one for each device and no other.
pub proof fn law_dump_devices_carry_device(p: PackageV)
    ensures
        crate::dump::package_dump_devices(p).dom() == p.devices.dom(),
        forall|k: Seq<char>|
            #[trigger] p.devices.dom().contains(k) ==> {
                let d = crate::dump::package_dump_devices(p)[k];
                &&& d.name == p.devices[k].name
                &&& d.memories == p.devices[k].memories
                &&& d.algorithms == p.devices[k].algorithms
                &&& d.from_pack.vendor == p.vendor
                &&& d.from_pack.pack == p.name
                &&& d.from_pack.version == p.releases[0].version
            },
{
    assert(crate::dump::package_dump_devices(p).dom() =~= p.devices.dom());
}

/// A component read from an element takes each attribute field from the
/// attribute of that name, its description from its first `description`
/// child, and reads exactly where the element is a `component` with a
/// `description` child.
pub proof fn law_component_attributes(e: XmlElem)
    ensures
        component_builder_spec(e) is Ok <==> (e.name@ == "component"@ && child_in(
            e.children@,
            "description"@,
        ) is Some),
        component_builder_spec(e) matches Ok(b) ==> {
            &&& b.vendor == attr_of(e, "Cvendor"@)
            &&& b.class == attr_of(e, "Cclass"@)
            &&& b.group == attr_of(e, "Cgroup"@)
            &&& b.sub_group == attr_of(e, "Csub"@)
            &&& b.variant == attr_of(e, "Cvariant"@)
            &&& b.version == attr_of(e, "Cversion"@)
            &&& b.api_version == attr_of(e, "Capiversion"@)
            &&& b.condition == attr_of(e, "condition"@)
            &&& b.description == child_in(e.children@, "description"@)->Some_0.text@
            &&& (attr_of(e, "isDefaultVariant"@) == Some("false"@) ==> !b.is_default)
            &&& (attr_of(e, "isDefaultVariant"@) is None ==> b.is_default)
            &&& (child_in(e.children@, "deprecated"@) is None ==> !b.deprecated)
            &&& (child_in(e.children@, "RTE_components_h"@) matches Some(t) ==> b.rte_addition
                == t.text@)
        },
{
    reveal_strlit("true");
    reveal_strlit("false");
    assert("false"@ != "true"@) by {
        assert("false"@.len() == 5 && "true"@.len() == 4);
    }
}

/// A file reference takes its path from `name`, its category from the
/// spelling of `category`, and its other fields from the attributes of
/// their names; it reads exactly where the element is a `file` with a
/// `name` and a known `category`.
pub proof fn law_file_ref_attributes(e: XmlElem)
    ensures
        file_ref_spec(e) is Ok <==> (e.name@ == "file"@ && attr_of(e, "name"@) is Some && attr_of(
            e,
            "category"@,
        ) is Some && category_of(attr_of(e, "category"@)->Some_0) is Some),
        file_ref_spec(e) matches Ok(f) ==> {
            &&& Some(f.path) == attr_of(e, "name"@)
            &&& Some(f.category) == category_of(attr_of(e, "category"@)->Some_0)
            &&& (attr_of(e, "attr"@) matches Some(a) ==> f.attr == file_attribute_of(a))
            &&& (attr_of(e, "attr"@) is None ==> f.attr is None)
            &&& f.condition == attr_of(e, "condition"@)
            &&& f.select == attr_of(e, "select"@)
            &&& f.src == attr_of(e, "src"@)
            &&& f.version == attr_of(e, "version"@)
        },
{
}

/// A bundle takes its name, class, version and vendor from `Cbundle`,
/// `Cclass`, `Cversion` and `Cvendor`, and its description and doc from
/// its first children of those names.
pub proof fn law_bundle_attributes(e: XmlElem)
    ensures
        bundle_spec(e) is Ok <==> (e.name@ == "bundle"@ && attr_of(e, "Cbundle"@) is Some
            && attr_of(e, "Cclass"@) is Some && attr_of(e, "Cversion"@) is Some && child_in(
            e.children@,
            "description"@,
        ) is Some && child_in(e.children@, "doc"@) is Some),
        bundle_spec(e) matches Ok(b) ==> {
            &&& Some(b.name) == attr_of(e, "Cbundle"@)
            &&& Some(b.class) == attr_of(e, "Cclass"@)
            &&& Some(b.version) == attr_of(e, "Cversion"@)
            &&& b.vendor == attr_of(e, "Cvendor"@)
            &&& b.description == child_in(e.children@, "description"@)->Some_0.text@
            &&& b.doc == child_in(e.children@, "doc"@)->Some_0.text@
        },
{
}

/// A child of a `components` element that is neither a `bundle` nor a
/// `component` is refused with its name; a `component` contributes itself
/// alone.
pub proof fn law_component_child_kinds(e: XmlElem)
    ensures
        e.name@ != "bundle"@ && e.name@ != "component"@ ==> component_child_spec(e)
            == Err::<Seq<ComponentBuilderV>, ParseErrorV>(
            ParseErrorV::UnexpectedComponent { name: e.name@ },
        ),
        e.name@ == "component"@ ==> (component_child_spec(e) matches Ok(v) ==> v.len() == 1
            && Ok::<ComponentBuilderV, ParseErrorV>(v[0]) == component_builder_spec(e)),
{
    reveal_strlit("bundle");
    reveal_strlit("component");
    assert("bundle"@.len() == 6 && "component"@.len() == 9);
}

/// The number of children named `name` is the length of their list.
proof fn lemma_count_named(cs: Seq<XmlElem>, name: Seq<char>)
    ensures
        count_named(cs, name) == children_named(cs, name).len(),
    decreases cs.len(),
{
    if cs.len() > 0 {
        lemma_count_named(cs.drop_last(), name);
    }
}

/// A condition takes its id from `id`, has one entry per `accept`, `deny`
/// and `require` child, and every entry holds the device attributes of the
/// condition element itself.
pub proof fn law_condition_entries(e: XmlElem)
    ensures
        condition_spec(e) is Ok <==> (e.name@ == "condition"@ && attr_of(e, "id"@) is Some),
        condition_spec(e) matches Ok(c) ==> {
            &&& Some(c.id) == attr_of(e, "id"@)
            &&& c.accept.len() == children_named(e.children@, "accept"@).len()
            &&& c.deny.len() == children_named(e.children@, "deny"@).len()
            &&& c.require.len() == children_named(e.children@, "require"@).len()
            &&& forall|j: int|
                0 <= j < c.accept.len() ==> (#[trigger] c.accept[j]).device_family == attr_of(
                    e,
                    "Dfamily"@,
                ) && c.accept[j].device_name == attr_of(e, "Dname"@) && c.accept[j].device_vendor
                    == attr_of(e, "Dvendor"@) && c.accept[j].device_variant == attr_of(
                    e,
                    "Dvariant"@,
                ) && c.accept[j].device_sub_family == attr_of(e, "Dsubfamily"@)
            &&& forall|j: int|
                0 <= j < c.deny.len() ==> (#[trigger] c.deny[j]).device_family == attr_of(
                    e,
                    "Dfamily"@,
                ) && c.deny[j].device_name == attr_of(e, "Dname"@)
            &&& forall|j: int|
                0 <= j < c.require.len() ==> (#[trigger] c.require[j]).device_family == attr_of(
                    e,
                    "Dfamily"@,
                ) && c.require[j].device_name == attr_of(e, "Dname"@)
        },
{
    lemma_count_named(e.children@, "accept"@);
    lemma_count_named(e.children@, "deny"@);
    lemma_count_named(e.children@, "require"@);
}

/// A release takes its version from `version` and its notes from its text.
pub proof fn law_release_fields(e: XmlElem)
    ensures
        release_spec(e) is Ok <==> (e.name@ == "release"@ && attr_of(e, "version"@) is Some),
        release_spec(e) matches Ok(r) ==> Some(r.version) == attr_of(e, "version"@) && r.text
            == e.text@,
{
}

/// A memory is named by its `id`, else its `name`; its start and size are
/// the numbers that `start` and `size` spell; an `id` decides its access:
/// readable where it holds `ROM` or `RAM`, writable where it holds `RAM`
/// and not `ROM`, executable where it holds `ROM`; without an `id`, each of
/// the letters `r`, `w`, `x` in `access` grants its right.
pub proof fn law_memory_fields(e: XmlElem)
    ensures
        mem_elem_spec(e) matches Ok((n, m)) ==> {
            &&& (attr_of(e, "id"@) matches Some(id) ==> n == id)
            &&& (attr_of(e, "id"@) is None ==> Some(n) == attr_of(e, "name"@))
            &&& hex_or_dec_value(attr_of(e, "start"@)->Some_0) == Some(m.start as nat)
            &&& hex_or_dec_value(attr_of(e, "size"@)->Some_0) == Some(m.size as nat)
            &&& (attr_of(e, "id"@) matches Some(id) ==> {
                &&& m.access.read == (has_substring(id, "ROM"@) || has_substring(id, "RAM"@))
                &&& m.access.write == (!has_substring(id, "ROM"@) && has_substring(id, "RAM"@))
                &&& m.access.execute == has_substring(id, "ROM"@)
            })
            &&& (attr_of(e, "id"@) is None ==> {
                let a = attr_of(e, "access"@)->Some_0;
                &&& m.access.read == a.contains('r')
                &&& m.access.write == a.contains('w')
                &&& m.access.execute == a.contains('x')
            })
            &&& m.startup == (attr_of(e, "startup"@) == Some("true"@))
        },
        (attr_of(e, "id"@) is None && attr_of(e, "name"@) is None) ==> mem_elem_spec(e)
            == Err::<(Seq<char>, Memory), ParseErrorV>(ParseErrorV::UnnamedMemory),
{
    reveal_strlit("rx");
    reveal_strlit("rw");
    reveal_strlit("");
    reveal_strlit("true");
    reveal_strlit("false");
    assert("rx"@[0] == 'r' && "rx"@[1] == 'x' && "rx"@.len() == 2);
    assert("rw"@[0] == 'r' && "rw"@[1] == 'w' && "rw"@.len() == 2);
    assert(!"rx"@.contains('w')) by {
        if "rx"@.contains('w') {
            let i = choose|i: int| 0 <= i < "rx"@.len() && "rx"@[i] == 'w';
        }
    }
    assert(!"rw"@.contains('x')) by {
        if "rw"@.contains('x') {
            let i = choose|i: int| 0 <= i < "rw"@.len() && "rw"@[i] == 'x';
        }
    }
    assert("rx"@.contains('r') && "rx"@.contains('x'));
    assert("rw"@.contains('r') && "rw"@.contains('w'));
    assert(""@.len() == 0);
    assert("false"@ != "true"@) by {
        assert("false"@.len() == 5 && "true"@.len() == 4);
    }
}

/// An algorithm takes its file name from `name`, its start and size from
/// the numbers that `start` and `size` spell, and is the default only where
/// `default` says `true`.
pub proof fn law_algorithm_fields(e: XmlElem)
    ensures
        algorithm_spec(e) matches Ok(a) ==> {
            &&& Some(a.file_name) == attr_of(e, "name"@)
            &&& hex_or_dec_value(attr_of(e, "start"@)->Some_0) == Some(a.start as nat)
            &&& hex_or_dec_value(attr_of(e, "size"@)->Some_0) == Some(a.size as nat)
            &&& a.default == (attr_of(e, "default"@) == Some("true"@))
        },
        attr_of(e, "name"@) is None ==> algorithm_spec(e) is Err,
{
    reveal_strlit("true");
    reveal_strlit("false");
    assert("false"@ != "true"@) by {
        assert("false"@.len() == 5 && "true"@.len() == 4);
    }
}

/// A device element names its builder by `Dname`, else by `Dvariant`, and
/// the builder starts with no memories and no algorithms.
pub proof fn law_builder_name(e: XmlElem)
    ensures
        attr_of(e, "Dname"@) is Some ==> builder_spec(e).name == attr_of(e, "Dname"@),
        attr_of(e, "Dname"@) is None ==> builder_spec(e).name == attr_of(e, "Dvariant"@),
        builder_spec(e).memories == Map::<Seq<char>, Memory>::empty(),
        builder_spec(e).algorithms.len() == 0,
{
}

/// Building a device needs a name; the device keeps the builder's name,
/// memories and algorithms.
pub proof fn law_build_needs_name(b: DeviceBuilderV)
    ensures
        build_spec(b) is Ok <==> b.name is Some,
        build_spec(b) matches Ok(d) ==> Some(d.name) == b.name && d.memories == b.memories
            && d.algorithms == b.algorithms,
{
}

/// Every mounted device of a board is the `Dname` of one of its
/// `mountedDevice` children.
pub proof fn law_mounted_devices_come_from_children(cs: Seq<XmlElem>)
    ensures
        forall|i: int|
            0 <= i < mounted_devices_spec(cs).len() ==> exists|j: int|
                0 <= j < cs.len() && cs[j].name@ == "mountedDevice"@ && attr_of(cs[j], "Dname"@)
                    == Some(#[trigger] mounted_devices_spec(cs)[i]),
    decreases cs.len(),
{
    if cs.len() > 0 {
        law_mounted_devices_come_from_children(cs.drop_last());
        let prev = mounted_devices_spec(cs.drop_last());
        assert forall|i: int| 0 <= i < mounted_devices_spec(cs).len() implies exists|j: int|
            0 <= j < cs.len() && cs[j].name@ == "mountedDevice"@ && attr_of(cs[j], "Dname"@)
                == Some(#[trigger] mounted_devices_spec(cs)[i]) by {
            if i < prev.len() {
                let j = choose|j: int|
                    0 <= j < cs.drop_last().len() && cs.drop_last()[j].name@ == "mountedDevice"@
                        && attr_of(cs.drop_last()[j], "Dname"@) == Some(#[trigger] prev[i]);
                assert(cs[j] == cs.drop_last()[j]);
            } else {
                assert(cs[cs.len() - 1] == cs.last());
            }
        }
    }
}

/// A board takes its name from `name`, and reads exactly where it has one.
pub proof fn law_board_name(e: XmlElem)
    ensures
        board_spec(e) is Ok <==> attr_of(e, "name"@) is Some,
        board_spec(e) matches Ok(b) ==> Some(b.name) == attr_of(e, "name"@),
{
}

/// A pack reads exactly where its header does; it then takes its name,
/// description, vendor and url from its first children of those names, and
/// its licence from its first `license` child, if any.
pub proof fn law_package_fields(e: XmlElem)
    ensures
        package_spec(e) is Ok <==> package_header_spec(e) is Ok,
        package_header_spec(e) is Ok <==> (e.name@ == "package"@ && child_in(e.children@, "name"@)
            is Some && child_in(e.children@, "description"@) is Some && child_in(
            e.children@,
            "vendor"@,
        ) is Some && child_in(e.children@, "url"@) is Some),
        package_spec(e) matches Ok(p) ==> {
            &&& p.name == child_in(e.children@, "name"@)->Some_0.text@
            &&& p.description == child_in(e.children@, "description"@)->Some_0.text@
            &&& p.vendor == child_in(e.children@, "vendor"@)->Some_0.text@
            &&& p.url == child_in(e.children@, "url"@)->Some_0.text@
            &&& (child_in(e.children@, "license"@) matches Some(l) ==> p.license == Some(l.text@))
            &&& (child_in(e.children@, "license"@) is None ==> p.license is None)
        },
{
}

/// Every file of a component that names a condition the pack does not
/// define is reported, with its path.
proof fn lemma_file_unknowns_complete(files: Seq<FileRefV>, c: ComponentV, p: PackageV, j: int)
    requires
        0 <= j < files.len(),
        files[j].condition is Some,
        !knows_condition(p, files[j].condition->Some_0),
    ensures
        file_unknowns(files, c, p).contains(
            UnknownConditionV {
                class: c.class,
                group: c.group,
                file: Some(files[j].path),
                condition: files[j].condition->Some_0,
            },
        ),
    decreases files.len(),
{
    let u = UnknownConditionV {
        class: c.class,
        group: c.group,
        file: Some(files[j].path),
        condition: files[j].condition->Some_0,
    };
    let rest = file_unknowns(files.drop_last(), c, p);
    if j < files.len() - 1 {
        lemma_file_unknowns_complete(files.drop_last(), c, p, j);
        let k = choose|k: int| 0 <= k < rest.len() && rest[k] == u;
        assert(file_unknowns(files, c, p)[k] == u);
    } else {
        assert(file_unknowns(files, c, p) == rest.push(u));
        assert(file_unknowns(files, c, p)[rest.len() as int] == u);
    }
}

/// What a component contributes stays among the references of a list that
/// holds it.
proof fn lemma_unknowns_keep(cs: Seq<ComponentV>, p: PackageV, i: int, u: UnknownConditionV)
    requires
        0 <= i < cs.len(),
        component_unknowns(cs[i], p).contains(u),
    ensures
        unknown_conditions(cs, p).contains(u),
    decreases cs.len(),
{
    let rest = unknown_conditions(cs.drop_last(), p);
    let own = component_unknowns(cs.last(), p);
    assert(unknown_conditions(cs, p) == rest + own);
    if i < cs.len() - 1 {
        assert(cs.drop_last()[i] == cs[i]);
        lemma_unknowns_keep(cs.drop_last(), p, i, u);
        let k = choose|k: int| 0 <= k < rest.len() && rest[k] == u;
        assert((rest + own)[k] == u);
    } else {
        let k = choose|k: int| 0 <= k < own.len() && own[k] == u;
        assert((rest + own)[rest.len() + k] == u);
    }
}

/// A check reports every component, and every file of a component, that
/// names a condition the pack does not define.
pub proof fn law_unknown_conditions_complete(cs: Seq<ComponentV>, p: PackageV, i: int)
    requires
        0 <= i < cs.len(),
    ensures
        cs[i].condition is Some && !knows_condition(p, cs[i].condition->Some_0)
            ==> unknown_conditions(cs, p).contains(
            UnknownConditionV {
                class: cs[i].class,
                group: cs[i].group,
                file: None,
                condition: cs[i].condition->Some_0,
            },
        ),
        forall|j: int|
            0 <= j < cs[i].files.len() && (#[trigger] cs[i].files[j]).condition is Some
                && !knows_condition(p, cs[i].files[j].condition->Some_0) ==> unknown_conditions(
                cs,
                p,
            ).contains(
                UnknownConditionV {
                    class: cs[i].class,
                    group: cs[i].group,
                    file: Some(cs[i].files[j].path),
                    condition: cs[i].files[j].condition->Some_0,
                },
            ),
{
    let c = cs[i];
    let own = component_unknowns(c, p);
    if let Some(n) = c.condition {
        if !knows_condition(p, n) {
            let u = UnknownConditionV { class: c.class, group: c.group, file: None, condition: n };
            assert(own[0] == u);
            lemma_unknowns_keep(cs, p, i, u);
        }
    }
    assert forall|j: int|
        0 <= j < cs[i].files.len() && (#[trigger] cs[i].files[j]).condition is Some
            && !knows_condition(p, cs[i].files[j].condition->Some_0) implies unknown_conditions(
        cs,
        p,
    ).contains(
        UnknownConditionV {
            class: cs[i].class,
            group: cs[i].group,
            file: Some(cs[i].files[j].path),
            condition: cs[i].files[j].condition->Some_0,
        },
    ) by {
        let u = UnknownConditionV {
            class: c.class,
            group: c.group,
            file: Some(c.files[j].path),
            condition: c.files[j].condition->Some_0,
        };
        lemma_file_unknowns_complete(c.files, c, p, j);
        let fu = file_unknowns(c.files, c, p);
        let k = choose|k: int| 0 <= k < fu.len() && fu[k] == u;
        let head = own.len() - fu.len();
        assert(own[head + k] == u);
        lemma_unknowns_keep(cs, p, i, u);
    }
}

/// Whether two different conditions among `conds` have the id `id`.
pub open spec fn id_repeated(conds: Seq<ConditionV>, id: Seq<char>) -> bool {
    exists|a: int, b: int|
        #![trigger conds[a], conds[b]]
        0 <= a < b < conds.len() && conds[a].id == id && conds[b].id == id
}

/// Each reported repeated condition id is the id of two different
/// conditions, and the id of every condition that an earlier one shares is
/// reported.
pub proof fn law_duplicate_ids(conds: Seq<ConditionV>)
    ensures
        forall|i: int|
            0 <= i < duplicate_ids(conds).len() ==> id_repeated(
                conds,
                #[trigger] duplicate_ids(conds)[i],
            ),
        forall|a: int, b: int|
            0 <= a < b < conds.len() && #[trigger] conds[a].id == #[trigger] conds[b].id
                ==> duplicate_ids(conds).contains(conds[b].id),
    decreases conds.len(),
{
    if conds.len() > 0 {
        let pre = conds.drop_last();
        law_duplicate_ids(pre);
        let rest = duplicate_ids(pre);
        let last = conds.last();
        let repeated = exists|j: int| 0 <= j < conds.len() - 1 && #[trigger] conds[j].id == last.id;
        if repeated {
            assert(duplicate_ids(conds) == rest.push(last.id));
        } else {
            assert(duplicate_ids(conds) == rest);
        }
        assert forall|i: int| 0 <= i < duplicate_ids(conds).len() implies id_repeated(
            conds,
            #[trigger] duplicate_ids(conds)[i],
        ) by {
            if i < rest.len() {
                assert(duplicate_ids(conds)[i] == rest[i]);
                assert(id_repeated(pre, rest[i]));
                let (a, b) = choose|a: int, b: int|
                    #![trigger pre[a], pre[b]]
                    0 <= a < b < pre.len() && pre[a].id == rest[i] && pre[b].id == rest[i];
                assert(conds[a] == pre[a] && conds[b] == pre[b]);
            } else {
                let a = choose|j: int| 0 <= j < conds.len() - 1 && #[trigger] conds[j].id == last.id;
                let b = conds.len() - 1;
                assert(conds[b] == last);
                assert(conds[a].id == duplicate_ids(conds)[i] && conds[b].id == duplicate_ids(conds)[i]);
            }
        }
        assert forall|a: int, b: int|
            0 <= a < b < conds.len() && #[trigger] conds[a].id == #[trigger] conds[b].id
                implies duplicate_ids(conds).contains(conds[b].id) by {
            if b < conds.len() - 1 {
                assert(pre[a] == conds[a] && pre[b] == conds[b]);
                let k = choose|k: int| 0 <= k < rest.len() && rest[k] == conds[b].id;
                assert(duplicate_ids(conds)[k] == conds[b].id);
            } else {
                assert(pre[a] == conds[a]);
                assert(conds[a].id == last.id);
                assert(duplicate_ids(conds)[rest.len() as int] == last.id);
            }
        }
    }
}

/// The lookup of conditions gives, for each id, the position of the last
/// condition with that id.
pub proof fn law_condition_lookup_last(conds: Seq<ConditionV>, id: Seq<char>)
    requires
        conds.len() <= usize::MAX,
    ensures
        condition_lookup_spec(conds).dom().contains(id) ==> {
            let i = condition_lookup_spec(conds)[id] as int;
            &&& 0 <= i < conds.len()
            &&& conds[i].id == id
            &&& forall|j: int| i < j < conds.len() ==> #[trigger] conds[j].id != id
        },
    decreases conds.len(),
{
    if conds.len() > 0 {
        law_condition_lookup_last(conds.drop_last(), id);
        if id != conds.last().id && condition_lookup_spec(conds).dom().contains(id) {
            let i = condition_lookup_spec(conds)[id] as int;
            assert forall|j: int| i < j < conds.len() implies #[trigger] conds[j].id != id by {
                if j < conds.len() - 1 {
                    assert(conds.drop_last()[j] == conds[j]);
                }
            }
            assert(conds.drop_last()[i] == conds[i]);
        }
    }
}

/// Collecting the devices of one more pack keeps every device name seen so
/// far, and every device of the new pack replaces any earlier one of its
/// name; devices of names the new pack lacks stay as they were.
pub proof fn law_later_pack_wins(ps: Seq<PackageV>, p: PackageV, k: Seq<char>)
    ensures
        all_dump_devices(ps.push(p)).dom().contains(k) <==> (all_dump_devices(ps).dom().contains(
            k,
        ) || p.devices.dom().contains(k)),
        p.devices.dom().contains(k) ==> all_dump_devices(ps.push(p))[k]
            == crate::dump::package_dump_devices(p)[k],
        !p.devices.dom().contains(k) && all_dump_devices(ps).dom().contains(k)
            ==> all_dump_devices(ps.push(p))[k] == all_dump_devices(ps)[k],
{
    assert(ps.push(p).drop_last() =~= ps);
    assert(crate::dump::package_dump_devices(p).dom() =~= p.devices.dom());
}

} // verus!
