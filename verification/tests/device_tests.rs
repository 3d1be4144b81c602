use pdsc::device::{
    merge_memories, parse_device, parse_family, parse_sub_family, Algorithm, DeviceBuilder,
    Devices, MemElem, Memory, MemoryPermissions,
};
use pdsc::parse::ParseError;
use pdsc::strmap::StrMap;
use pdsc::xml::XmlElem;

fn el(name: &str, attrs: &[(&str, &str)], children: Vec<XmlElem>) -> XmlElem {
    XmlElem {
        name: name.to_string(),
        ns: None,
        attrs: attrs.iter().map(|(k, v)| (k.to_string(), v.to_string())).collect(),
        text: String::new(),
        children,
    }
}

fn mem(start: u64) -> Memory {
    Memory {
        access: MemoryPermissions { read: true, write: false, execute: false },
        start,
        size: 16,
        startup: false,
    }
}

#[test]
fn permissions_take_each_letter() {
    assert_eq!(
        MemoryPermissions::from_str("rwx"),
        MemoryPermissions { read: true, write: true, execute: true }
    );
    assert_eq!(
        MemoryPermissions::from_str("xr"),
        MemoryPermissions { read: true, write: false, execute: true }
    );
    assert_eq!(
        MemoryPermissions::from_str("pq"),
        MemoryPermissions { read: false, write: false, execute: false }
    );
}

#[test]
fn memory_access_follows_the_id() {
    let rom = el("memory", &[("id", "IROM1"), ("start", "0x08000000"), ("size", "0x80000"), ("startup", "true")], vec![]);
    let MemElem(name, m) = MemElem::from_elem(&rom).unwrap();
    assert_eq!(name, "IROM1");
    assert_eq!(m.access, MemoryPermissions { read: true, write: false, execute: true });
    assert_eq!(m.start, 0x0800_0000);
    assert_eq!(m.size, 0x80000);
    assert!(m.startup);
    let ram = el("memory", &[("id", "IRAM1"), ("access", "x"), ("start", "0"), ("size", "1024")], vec![]);
    let MemElem(_, m) = MemElem::from_elem(&ram).unwrap();
    assert_eq!(m.access, MemoryPermissions { read: true, write: true, execute: false });
    assert_eq!(m.size, 1024);
    let other = el("memory", &[("id", "Flash"), ("start", "0"), ("size", "1")], vec![]);
    let MemElem(_, m) = MemElem::from_elem(&other).unwrap();
    assert_eq!(m.access, MemoryPermissions { read: false, write: false, execute: false });
}

#[test]
fn memory_access_attribute_and_name() {
    let e = el("memory", &[("name", "SRAM"), ("access", "rw"), ("start", "0x20000000"), ("size", "0x1000")], vec![]);
    let MemElem(name, m) = MemElem::from_elem(&e).unwrap();
    assert_eq!(name, "SRAM");
    assert_eq!(m.access, MemoryPermissions { read: true, write: true, execute: false });
    assert!(!m.startup);
}

#[test]
fn memory_errors() {
    let unnamed = el("memory", &[("access", "rw"), ("start", "0"), ("size", "1")], vec![]);
    assert!(matches!(MemElem::from_elem(&unnamed), Err(ParseError::UnnamedMemory)));
    let no_start = el("memory", &[("id", "IRAM1"), ("size", "1")], vec![]);
    match MemElem::from_elem(&no_start) {
        Err(ParseError::MissingAttribute { attr, elem }) => {
            assert_eq!(attr, "start");
            assert_eq!(elem, "memory");
        }
        _ => panic!("expected a missing start"),
    }
    let bad_size = el("memory", &[("id", "IRAM1"), ("start", "0"), ("size", "0xZZ")], vec![]);
    assert!(matches!(MemElem::from_elem(&bad_size), Err(ParseError::InvalidAttribute { .. })));
}

#[test]
fn algorithm_reads_its_attributes() {
    let e = el("algorithm", &[("name", "Flash/F4.FLM"), ("start", "0x08000000"), ("size", "0x100000"), ("default", "1")], vec![]);
    let a = Algorithm::from_elem(&e).unwrap();
    assert_eq!(a.file_name, "Flash/F4.FLM");
    assert_eq!(a.start, 0x0800_0000);
    assert_eq!(a.size, 0x10_0000);
    assert!(!a.default);
    let missing = el("algorithm", &[("start", "0"), ("size", "0")], vec![]);
    assert!(matches!(Algorithm::from_elem(&missing), Err(ParseError::MissingAttribute { .. })));
}

#[test]
fn merging_memories_keeps_the_own_ones() {
    let mut lhs: StrMap<Memory> = StrMap::new();
    lhs.insert("A".to_string(), mem(1));
    lhs.insert("B".to_string(), mem(2));
    let mut rhs: StrMap<Memory> = StrMap::new();
    rhs.insert("B".to_string(), mem(20));
    rhs.insert("C".to_string(), mem(30));
    let m = merge_memories(lhs, &rhs);
    assert_eq!(m.len(), 3);
    assert_eq!(m.get(&"A".to_string()).unwrap().start, 1);
    assert_eq!(m.get(&"B".to_string()).unwrap().start, 2);
    assert_eq!(m.get(&"C".to_string()).unwrap().start, 30);
}

#[test]
fn merging_a_memory_map_with_itself_changes_nothing() {
    let mut m: StrMap<Memory> = StrMap::new();
    m.insert("A".to_string(), mem(1));
    m.insert("B".to_string(), mem(2));
    let copy = pdsc::device::clone_memories(&m);
    let merged = merge_memories(m, &copy);
    assert_eq!(merged.len(), 2);
    assert_eq!(merged.get(&"A".to_string()).unwrap().start, 1);
    assert_eq!(merged.get(&"B".to_string()).unwrap().start, 2);
}

#[test]
fn inserting_replaces_the_value_of_a_key() {
    let mut m: StrMap<Memory> = StrMap::new();
    m.insert("A".to_string(), mem(1));
    m.insert("A".to_string(), mem(5));
    assert_eq!(m.len(), 1);
    assert_eq!(m.get(&"A".to_string()).unwrap().start, 5);
    assert!(!m.contains_key(&"B".to_string()));
}

#[test]
fn builder_names_and_inheritance() {
    let b = DeviceBuilder::from_elem(&el("variant", &[("Dvariant", "V1")], vec![]));
    assert_eq!(b.name.as_deref(), Some("V1"));
    let b = DeviceBuilder::from_elem(&el("device", &[("Dname", "D"), ("Dvariant", "V")], vec![]));
    assert_eq!(b.name.as_deref(), Some("D"));
    let mut parent = DeviceBuilder::from_elem(&el("family", &[("Dname", "P")], vec![]));
    parent.add_memory(MemElem("M".to_string(), mem(7)));
    parent.add_algorithm(Algorithm { file_name: "p.flm".to_string(), start: 0, size: 1, default: true });
    let mut child = DeviceBuilder::from_elem(&el("device", &[], vec![]));
    child.add_algorithm(Algorithm { file_name: "c.flm".to_string(), start: 0, size: 1, default: false });
    let merged = child.add_parent(&parent);
    assert_eq!(merged.name.as_deref(), Some("P"));
    assert_eq!(merged.algorithms.len(), 2);
    assert_eq!(merged.algorithms[0].file_name, "c.flm");
    assert_eq!(merged.algorithms[1].file_name, "p.flm");
    assert_eq!(merged.memories.get(&"M".to_string()).unwrap().start, 7);
    let unnamed = DeviceBuilder::from_elem(&el("device", &[], vec![]));
    assert!(matches!(unnamed.build(), Err(ParseError::UnnamedDevice)));
}

fn memory(id: &str, start: &str) -> XmlElem {
    el("memory", &[("id", id), ("start", start), ("size", "0x100")], vec![])
}

#[test]
fn device_variants_inherit_from_the_device() {
    let d = el(
        "device",
        &[("Dname", "DEV")],
        vec![
            el("variant", &[("Dvariant", "DEV-A")], vec![]),
            memory("IRAM1", "0x20000000"),
            el("variant", &[("Dvariant", "DEV-B")], vec![]),
            el("algorithm", &[("name", "a.flm"), ("start", "0"), ("size", "0x10")], vec![]),
        ],
    );
    let bs = parse_device(&d);
    assert_eq!(bs.len(), 2);
    assert_eq!(bs[0].name.as_deref(), Some("DEV-A"));
    assert_eq!(bs[1].name.as_deref(), Some("DEV-B"));
    for b in bs.iter() {
        assert_eq!(b.memories.get(&"IRAM1".to_string()).unwrap().start, 0x2000_0000);
        assert_eq!(b.algorithms.len(), 1);
    }
    let plain = el("device", &[("Dname", "ONE")], vec![memory("IROM1", "0")]);
    let bs = parse_device(&plain);
    assert_eq!(bs.len(), 1);
    assert_eq!(bs[0].name.as_deref(), Some("ONE"));
    assert_eq!(bs[0].memories.len(), 1);
}

#[test]
fn families_pass_memories_down_and_keep_the_nearest() {
    let family = el(
        "family",
        &[("Dfamily", "F")],
        vec![
            memory("IROM1", "0x1"),
            el(
                "subFamily",
                &[("DsubFamily", "S")],
                vec![
                    memory("IRAM1", "0x2"),
                    el("device", &[("Dname", "D1")], vec![memory("IROM1", "0x10")]),
                ],
            ),
            el("device", &[("Dname", "D2")], vec![]),
            el("algorithm", &[("name", "f.flm"), ("start", "0"), ("size", "1")], vec![]),
        ],
    );
    let ds = parse_family(&family).unwrap();
    assert_eq!(ds.len(), 2);
    assert_eq!(ds[0].name, "D1");
    assert_eq!(ds[0].memories.get(&"IROM1".to_string()).unwrap().start, 0x10);
    assert_eq!(ds[0].memories.get(&"IRAM1".to_string()).unwrap().start, 0x2);
    assert_eq!(ds[0].algorithms.len(), 1);
    assert_eq!(ds[1].name, "D2");
    assert_eq!(ds[1].memories.get(&"IROM1".to_string()).unwrap().start, 0x1);
    assert!(ds[1].memories.get(&"IRAM1".to_string()).is_none());
    let sub = parse_sub_family(&el("subFamily", &[], vec![el("device", &[("Dname", "X")], vec![])]));
    assert_eq!(sub.len(), 1);
}

#[test]
fn a_device_without_a_name_fails_its_family() {
    let family = el("family", &[], vec![el("device", &[], vec![])]);
    assert!(matches!(parse_family(&family), Err(ParseError::UnnamedDevice)));
    let named_by_family = el("family", &[("Dname", "FAM")], vec![el("device", &[], vec![])]);
    assert_eq!(parse_family(&named_by_family).unwrap()[0].name, "FAM");
}

#[test]
fn devices_by_name_later_wins() {
    let devices = el(
        "devices",
        &[],
        vec![
            el("family", &[], vec![el("device", &[("Dname", "D")], vec![memory("A", "1")])]),
            el("family", &[], vec![el("device", &[("Dname", "D")], vec![memory("B", "2")])]),
            el("family", &[], vec![el("device", &[("Dname", "E")], vec![])]),
        ],
    );
    let ds = Devices::from_elem(&devices).unwrap();
    assert_eq!(ds.0.len(), 2);
    let d = ds.0.get(&"D".to_string()).unwrap();
    assert!(d.memories.get(&"A".to_string()).is_none());
    assert!(d.memories.get(&"B".to_string()).is_some());
    let bad = el("devices", &[], vec![el("family", &[], vec![el("device", &[], vec![])])]);
    assert!(matches!(Devices::from_elem(&bad), Err(ParseError::UnnamedDevice)));
}

#[test]
fn the_order_of_device_children_across_kinds_does_not_matter() {
    let children_a = vec![
        el("variant", &[("Dvariant", "A")], vec![]),
        memory("IRAM1", "0x1"),
        el("description", &[], vec![]),
        el("variant", &[("Dvariant", "B")], vec![]),
        el("algorithm", &[("name", "x.flm"), ("start", "0"), ("size", "1")], vec![]),
        memory("IRAM1", "0x2"),
    ];
    let children_b = vec![
        memory("IRAM1", "0x1"),
        el("algorithm", &[("name", "x.flm"), ("start", "0"), ("size", "1")], vec![]),
        memory("IRAM1", "0x2"),
        el("variant", &[("Dvariant", "A")], vec![]),
        el("variant", &[("Dvariant", "B")], vec![]),
    ];
    let a = parse_device(&el("device", &[("Dname", "D")], children_a));
    let b = parse_device(&el("device", &[("Dname", "D")], children_b));
    assert_eq!(a.len(), 2);
    assert_eq!(b.len(), 2);
    for (x, y) in a.iter().zip(b.iter()) {
        assert_eq!(x.name, y.name);
        assert_eq!(x.algorithms.len(), 1);
        assert_eq!(y.algorithms.len(), 1);
        assert_eq!(x.memories.get(&"IRAM1".to_string()).unwrap().start, 0x2);
        assert_eq!(y.memories.get(&"IRAM1".to_string()).unwrap().start, 0x2);
    }
}
