use pdsc::condition::{Condition, ConditionComponent, Conditions};
use pdsc::parse::ParseError;
use pdsc::xml::XmlElem;
use pdsc::{Release, Releases};

fn el(name: &str, attrs: &[(&str, &str)], text: &str, children: Vec<XmlElem>) -> XmlElem {
    XmlElem {
        name: name.to_string(),
        ns: None,
        attrs: attrs.iter().map(|(k, v)| (k.to_string(), v.to_string())).collect(),
        text: text.to_string(),
        children,
    }
}

#[test]
fn condition_component_reads_device_attributes() {
    let e = el("accept", &[("Dfamily", "STM32F4"), ("Dvendor", "STMicroelectronics:13")], "", vec![]);
    let c = ConditionComponent::from_elem(&e);
    assert_eq!(c.device_family.as_deref(), Some("STM32F4"));
    assert_eq!(c.device_vendor.as_deref(), Some("STMicroelectronics:13"));
    assert!(c.device_sub_family.is_none());
    assert!(c.device_variant.is_none());
    assert!(c.device_name.is_none());
}

#[test]
fn condition_entries_come_from_the_condition_element() {
    let e = el(
        "condition",
        &[("id", "F4"), ("Dfamily", "Fam")],
        "",
        vec![
            el("description", &[], "text", vec![]),
            el("accept", &[("Dfamily", "Other")], "", vec![]),
            el("accept", &[], "", vec![]),
            el("require", &[], "", vec![]),
            el("deny", &[], "", vec![]),
            el("unknown", &[], "", vec![]),
        ],
    );
    let c = Condition::from_elem(&e).unwrap();
    assert_eq!(c.id, "F4");
    assert_eq!(c.accept.len(), 2);
    assert_eq!(c.deny.len(), 1);
    assert_eq!(c.require.len(), 1);
    assert_eq!(c.accept[0].device_family.as_deref(), Some("Fam"));
    assert_eq!(c.accept[1].device_family.as_deref(), Some("Fam"));
}

#[test]
fn condition_errors() {
    assert!(matches!(
        Condition::from_elem(&el("conditions", &[], "", vec![])),
        Err(ParseError::WrongElement { .. })
    ));
    match Condition::from_elem(&el("condition", &[], "", vec![])) {
        Err(ParseError::MissingAttribute { attr, elem }) => {
            assert_eq!(attr, "id");
            assert_eq!(elem, "condition");
        }
        _ => panic!("expected a missing id"),
    }
}

#[test]
fn conditions_keep_those_that_read() {
    let e = el(
        "conditions",
        &[],
        "",
        vec![
            el("condition", &[("id", "A")], "", vec![]),
            el("condition", &[], "", vec![]),
            el("condition", &[("id", "B")], "", vec![]),
        ],
    );
    let cs = Conditions::from_elem(&e).unwrap().0;
    assert_eq!(cs.len(), 2);
    assert_eq!(cs[0].id, "A");
    assert_eq!(cs[1].id, "B");
}

#[test]
fn release_reads_version_and_text() {
    let r = Release::from_elem(&el("release", &[("version", "2.1.0")], "Fixes", vec![])).unwrap();
    assert_eq!(r.version, "2.1.0");
    assert_eq!(r.text, "Fixes");
    assert!(matches!(
        Release::from_elem(&el("release", &[], "", vec![])),
        Err(ParseError::MissingAttribute { .. })
    ));
}

#[test]
fn releases_need_one_that_reads_and_the_first_is_latest() {
    let e = el(
        "releases",
        &[],
        "",
        vec![
            el("release", &[], "no version", vec![]),
            el("release", &[("version", "2.0")], "new", vec![]),
            el("release", &[("version", "1.0")], "old", vec![]),
        ],
    );
    let rs = Releases::from_elem(&e).unwrap();
    assert_eq!(rs.0.len(), 2);
    assert_eq!(rs.latest_release().version, "2.0");
    let none = el("releases", &[], "", vec![el("release", &[], "", vec![])]);
    assert!(matches!(Releases::from_elem(&none), Err(ParseError::NoRelease)));
    let empty = el("releases", &[], "", vec![]);
    assert!(matches!(Releases::from_elem(&empty), Err(ParseError::NoRelease)));
    assert!(Releases::new().0.is_empty());
}
