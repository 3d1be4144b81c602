use pdsc::dump::{collect_boards, collect_dump_devices, merge_dump_devices, FromPack};
use pdsc::package::LoadError;
use pdsc::parse::ParseError;
use pdsc::Package;

const PDSC: &str = r#"<?xml version="1.0" encoding="UTF-8"?>
<package schemaVersion="1.4" xmlns:xs="http://www.w3.org/2001/XMLSchema-instance">
  <vendor>Acme</vendor>
  <name>Widgets_DFP</name>
  <description>Device support for widgets</description>
  <url>http://example.com/packs/</url>
  <license>License.txt</license>
  <releases>
    <release version="1.2.0">Newest</release>
    <release version="1.1.0">Older</release>
  </releases>
  <conditions>
    <condition id="W1">
      <description>Widget one</description>
      <require Dvendor="Acme:1" Dname="W1"/>
    </condition>
    <condition id="W1"/>
    <condition id="CMSIS">
      <require Cclass="CMSIS" Cgroup="CORE"/>
    </condition>
  </conditions>
  <devices>
    <family Dfamily="Widgets" Dvendor="Acme:1">
      <memory id="IROM1" start="0x00000000" size="0x40000" startup="1" default="1"/>
      <algorithm name="Flash/W.FLM" start="0x00000000" size="0x40000" default="1"/>
      <device Dname="W1">
        <memory id="IRAM1" start="0x20000000" size="0x8000"/>
      </device>
      <subFamily DsubFamily="W2x">
        <device Dname="W2">
          <variant Dvariant="W2A"/>
          <variant Dvariant="W2B"/>
        </device>
      </subFamily>
    </family>
  </devices>
  <boards>
    <board name="WidgetBoard">
      <mountedDevice Dname="W1"/>
      <mountedDevice deviceIndex="0"/>
    </board>
    <board vendor="no name"/>
  </boards>
  <components>
    <component Cclass="Device" Cgroup="Startup" condition="W1">
      <description>Startup</description>
    </component>
    <component Cclass="Device" Cgroup="Other" Cversion="0.9" condition="Missing">
      <description>Other</description>
    </component>
    <bundle Cbundle="Kit" Cclass="Board Support" Cversion="3.0">
      <description>Kit</description>
      <doc>kit.html</doc>
      <component Cgroup="LED" Cvendor="Someone">
        <description>LEDs</description>
      </component>
    </bundle>
  </components>
</package>
"#;

fn load(text: &str) -> Package {
    match Package::from_string(text) {
        Ok(p) => p,
        Err(e) => panic!("the pack should load: {:?}", e),
    }
}

#[test]
fn a_full_pack_loads() {
    let p = load(PDSC);
    assert_eq!(p.name, "Widgets_DFP");
    assert_eq!(p.vendor, "Acme");
    assert_eq!(p.description, "Device support for widgets");
    assert_eq!(p.url, "http://example.com/packs/");
    assert_eq!(p.license.as_deref(), Some("License.txt"));
    assert_eq!(p.releases.0.len(), 2);
    assert_eq!(p.releases.latest_release().version, "1.2.0");
    assert_eq!(p.conditions.0.len(), 3);
    assert_eq!(p.conditions.0[0].require.len(), 1);
    assert_eq!(p.components.0.len(), 3);
    assert_eq!(p.boards.len(), 1);
    assert_eq!(p.boards[0].name, "WidgetBoard");
    assert_eq!(p.boards[0].mounted_devices, vec!["W1".to_string()]);
}

#[test]
fn devices_of_a_pack_inherit_memories_and_algorithms() {
    let p = load(PDSC);
    let devices = &p.devices.0;
    assert_eq!(devices.len(), 3);
    let w1 = devices.get(&"W1".to_string()).unwrap();
    assert_eq!(w1.memories.len(), 2);
    let rom = w1.memories.get(&"IROM1".to_string()).unwrap();
    assert!(rom.access.read && rom.access.execute && !rom.access.write);
    assert!(!rom.startup);
    assert_eq!(rom.size, 0x40000);
    assert_eq!(w1.algorithms.len(), 1);
    assert_eq!(w1.algorithms[0].file_name, "Flash/W.FLM");
    assert!(!w1.algorithms[0].default);
    let w2a = devices.get(&"W2A".to_string()).unwrap();
    assert_eq!(w2a.memories.len(), 1);
    assert!(devices.get(&"W2B".to_string()).is_some());
    assert!(devices.get(&"W2".to_string()).is_none());
}

#[test]
fn components_get_their_defaults() {
    let p = load(PDSC);
    assert!(p.components_complete());
    let cs = p.make_components();
    assert_eq!(cs.len(), 3);
    assert_eq!(cs[0].vendor, "Acme");
    assert_eq!(cs[0].version, "1.2.0");
    assert_eq!(cs[1].version, "0.9");
    assert_eq!(cs[2].class, "Board Support");
    assert_eq!(cs[2].group, "LED");
    assert_eq!(cs[2].version, "3.0");
    assert_eq!(cs[2].vendor, "Someone");
}

#[test]
fn check_reports_counts_and_unknown_conditions() {
    let p = load(PDSC);
    let r = p.check_report();
    assert_eq!(r.num_conditions, 3);
    assert_eq!(r.num_devices, 3);
    assert_eq!(r.num_components, 3);
    assert_eq!(r.num_files, 0);
    assert_eq!(r.duplicate_conditions, vec!["W1".to_string()]);
    assert_eq!(r.unknown_conditions.len(), 1);
    assert_eq!(r.unknown_conditions[0].condition, "Missing");
    assert_eq!(r.unknown_conditions[0].class, "Device");
    assert_eq!(r.unknown_conditions[0].group, "Other");
    assert!(r.unknown_conditions[0].file.is_none());
    let lookup = p.make_condition_lookup();
    assert_eq!(lookup.len(), 2);
    assert_eq!(*lookup.get(&"W1".to_string()).unwrap(), 1);
    assert!(lookup.contains_key(&"CMSIS".to_string()));
    assert!(!lookup.contains_key(&"Missing".to_string()));
}

#[test]
fn files_referring_to_unknown_conditions_are_reported() {
    let text = r#"<package xmlns="">
      <name>N</name><description>D</description><vendor>V</vendor><url>U</url>
      <releases><release version="1.0"/></releases>
      <conditions><condition id="OK"/></conditions>
      <components>
        <component Cclass="C" Cgroup="G" condition="OK">
          <description>d</description>
          <files>
            <file name="a.c" category="source" condition="Nope"/>
            <file name="b.c" category="source" condition="OK"/>
            <file name="c.h" category="header"/>
          </files>
        </component>
      </components>
    </package>"#;
    let p = load(text);
    let r = p.check_report();
    assert_eq!(r.num_files, 3);
    assert_eq!(r.unknown_conditions.len(), 1);
    assert_eq!(r.unknown_conditions[0].file.as_deref(), Some("a.c"));
    assert_eq!(r.unknown_conditions[0].condition, "Nope");
}

#[test]
fn incomplete_components_are_detected() {
    let text = r#"<package><name>N</name><description>D</description><vendor>V</vendor><url>U</url>
      <components><component Cclass="C"><description>d</description></component></components>
    </package>"#;
    let p = load(text);
    assert!(!p.components_complete());
    let no_release = r#"<package><name>N</name><description>D</description><vendor>V</vendor><url>U</url>
      <components><component Cclass="C" Cgroup="G"><description>d</description></component></components>
    </package>"#;
    assert!(!load(no_release).components_complete());
}

#[test]
fn required_package_parts() {
    match Package::from_string("<package><name>N</name><vendor>V</vendor><url>U</url></package>") {
        Err(LoadError::Parse(ParseError::MissingChild { child, elem })) => {
            assert_eq!(child, "description");
            assert_eq!(elem, "package");
        }
        _ => panic!("expected a missing description"),
    }
    assert!(matches!(
        Package::from_string("<pack/>"),
        Err(LoadError::Parse(ParseError::WrongElement { .. }))
    ));
    assert!(matches!(Package::from_string(""), Err(LoadError::Xml(_))));
}

#[test]
fn broken_parts_are_left_empty() {
    let text = r#"<package><name>N</name><description>D</description><vendor>V</vendor><url>U</url>
      <releases><release/></releases>
      <devices><family><device/></family></devices>
    </package>"#;
    let p = load(text);
    assert!(p.releases.0.is_empty());
    assert_eq!(p.devices.0.len(), 0);
    assert!(p.license.is_none());
}

#[test]
fn a_memory_without_id_or_access_is_refused() {
    let text = r#"<package><name>N</name><description>D</description><vendor>V</vendor><url>U</url>
      <devices><family><device Dname="D"><memory name="M" start="0" size="1"/></device></family></devices>
    </package>"#;
    assert!(matches!(Package::from_string(text), Err(LoadError::UnreadableMemory)));
    let outside = r#"<package><name>N</name><description>D</description><vendor>V</vendor><url>U</url>
      <devices><family><device Dname="D"><variant Dvariant="V"><memory name="M"/></variant></device></family></devices>
    </package>"#;
    assert!(Package::from_string(outside).is_ok());
}

#[test]
fn dump_devices_carry_their_pack_and_later_packs_win() {
    let first = load(PDSC);
    let second_text = r#"<package><name>Other_DFP</name><description>D</description><vendor>Beta</vendor><url>U</url>
      <releases><release version="5.0"/></releases>
      <devices><family><device Dname="W1"/></family><family><device Dname="Z9"/></family></devices>
      <boards><board name="WidgetBoard"/></boards>
    </package>"#;
    let second = load(second_text);
    let one = first.make_dump_devices();
    let w1 = one.get(&"W1".to_string()).unwrap();
    assert_eq!(w1.name, "W1");
    assert_eq!(w1.from_pack.vendor, "Acme");
    assert_eq!(w1.from_pack.pack, "Widgets_DFP");
    assert_eq!(w1.from_pack.version, "1.2.0");
    assert_eq!(w1.memories.len(), 2);
    let pdscs = vec![first, second];
    let all = collect_dump_devices(&pdscs);
    assert_eq!(all.len(), 4);
    let w1 = all.get(&"W1".to_string()).unwrap();
    assert_eq!(w1.from_pack.pack, "Other_DFP");
    assert_eq!(w1.memories.len(), 0);
    assert_eq!(all.get(&"W2A".to_string()).unwrap().from_pack.pack, "Widgets_DFP");
    let boards = collect_boards(&pdscs);
    assert_eq!(boards.len(), 1);
    assert!(boards.get(&"WidgetBoard".to_string()).unwrap().mounted_devices.is_empty());
}

#[test]
fn merging_dumps_prefers_the_new_devices() {
    let old = load(PDSC).make_dump_devices();
    let newer_text = r#"<package><name>New</name><description>D</description><vendor>V</vendor><url>U</url>
      <releases><release version="2.0"/></releases>
      <devices><family><device Dname="W2A"/></family></devices>
    </package>"#;
    let new = load(newer_text).make_dump_devices();
    let merged = merge_dump_devices(old, new);
    assert_eq!(merged.len(), 3);
    assert_eq!(merged.get(&"W2A".to_string()).unwrap().from_pack.pack, "New");
    assert_eq!(merged.get(&"W1".to_string()).unwrap().from_pack.pack, "Widgets_DFP");
    let fp = FromPack::new("v", "p", "1");
    assert_eq!(fp.pack, "p");
}

#[test]
fn devices_boards_and_dumps_are_found_under_their_own_names() {
    let p = load(PDSC);
    for (k, d) in p.devices.0.entries().iter() {
        assert_eq!(*k, d.name);
    }
    for (k, d) in p.make_dump_devices().entries().iter() {
        assert_eq!(*k, d.name);
    }
    let pdscs = vec![p];
    for (k, b) in collect_boards(&pdscs).entries().iter() {
        assert_eq!(*k, b.name);
    }
}

#[test]
fn required_parts_are_checked_before_memories() {
    let wrong_root = r#"<pack><name>N</name><description>D</description><vendor>V</vendor><url>U</url>
      <devices><family><device Dname="D"><memory name="M" start="0" size="1"/></device></family></devices>
    </pack>"#;
    assert!(matches!(
        Package::from_string(wrong_root),
        Err(LoadError::Parse(ParseError::WrongElement { .. }))
    ));
    let no_vendor = r#"<package><name>N</name><description>D</description><url>U</url>
      <devices><family><device Dname="D"><memory name="M" start="0" size="1"/></device></family></devices>
    </package>"#;
    match Package::from_string(no_vendor) {
        Err(LoadError::Parse(ParseError::MissingChild { child, .. })) => assert_eq!(child, "vendor"),
        _ => panic!("expected a missing vendor"),
    }
}
