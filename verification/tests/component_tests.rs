use pdsc::component::{
    child_to_component_iter, ComponentBuilders, FileAttribute, FileCategory,
};
use pdsc::parse::ParseError;
use pdsc::xml::XmlElem;
use pdsc::{Bundle, ComponentBuilder, FileRef};

fn el(name: &str, attrs: &[(&str, &str)], text: &str, children: Vec<XmlElem>) -> XmlElem {
    XmlElem {
        name: name.to_string(),
        ns: None,
        attrs: attrs.iter().map(|(k, v)| (k.to_string(), v.to_string())).collect(),
        text: text.to_string(),
        children,
    }
}

fn in_empty_ns(mut e: XmlElem) -> XmlElem {
    e.ns = Some(String::new());
    e
}

#[test]
fn file_reference_reads_its_attributes() {
    let e = el(
        "file",
        &[("name", "src/main.c"), ("category", "sourceC"), ("attr", "config"), ("condition", "C1"), ("version", "1.0")],
        "",
        vec![],
    );
    let f = FileRef::from_elem(&e).unwrap();
    assert_eq!(f.path, "src/main.c");
    assert_eq!(f.category, FileCategory::SourceC);
    assert_eq!(f.attr, Some(FileAttribute::Config));
    assert_eq!(f.condition.as_deref(), Some("C1"));
    assert_eq!(f.version.as_deref(), Some("1.0"));
    assert!(f.select.is_none());
    assert!(f.src.is_none());
}

#[test]
fn file_reference_errors() {
    let wrong = el("files", &[], "", vec![]);
    assert!(matches!(FileRef::from_elem(&wrong), Err(ParseError::WrongElement { .. })));
    let no_name = el("file", &[("category", "doc")], "", vec![]);
    assert!(matches!(FileRef::from_elem(&no_name), Err(ParseError::MissingAttribute { .. })));
    let no_category = el("file", &[("name", "a")], "", vec![]);
    assert!(matches!(FileRef::from_elem(&no_category), Err(ParseError::MissingAttribute { .. })));
    let bad_category = el("file", &[("name", "a"), ("category", "Doc")], "", vec![]);
    match FileRef::from_elem(&bad_category) {
        Err(ParseError::InvalidAttribute { attr, value, .. }) => {
            assert_eq!(attr, "category");
            assert_eq!(value, "Doc");
        }
        _ => panic!("expected an invalid category"),
    }
    let bad_attr = el("file", &[("name", "a"), ("category", "include"), ("attr", "other")], "", vec![]);
    let f = FileRef::from_elem(&bad_attr).unwrap();
    assert_eq!(f.category, FileCategory::Include);
    assert!(f.attr.is_none());
}

#[test]
fn every_file_category_is_named_as_written() {
    let names = [
        ("doc", FileCategory::Doc),
        ("header", FileCategory::Header),
        ("include", FileCategory::Include),
        ("library", FileCategory::Library),
        ("object", FileCategory::Object),
        ("source", FileCategory::Source),
        ("sourceC", FileCategory::SourceC),
        ("sourceCpp", FileCategory::SourceCpp),
        ("sourceAsm", FileCategory::SourceAsm),
        ("linkerScript", FileCategory::LinkerScript),
        ("utility", FileCategory::Utility),
        ("image", FileCategory::Image),
        ("other", FileCategory::Other),
    ];
    for (name, cat) in names.iter() {
        assert_eq!(FileCategory::from_str(name), Some(*cat));
    }
    assert_eq!(FileCategory::from_str("sourcec"), None);
    assert_eq!(FileAttribute::from_str("template"), Some(FileAttribute::Template));
    assert_eq!(FileAttribute::from_str("Template"), None);
}

fn component(attrs: &[(&str, &str)], children: Vec<XmlElem>) -> XmlElem {
    el("component", attrs, "", children)
}

#[test]
fn component_reads_attributes_and_defaults() {
    let e = component(
        &[("Cclass", "Device"), ("Cgroup", "Startup"), ("Cversion", "1.2"), ("condition", "ARMCC"), ("maxInstances", "3")],
        vec![el("description", &[], "Startup code", vec![])],
    );
    let c = ComponentBuilder::from_elem(&e).unwrap();
    assert_eq!(c.class.as_deref(), Some("Device"));
    assert_eq!(c.group.as_deref(), Some("Startup"));
    assert_eq!(c.version.as_deref(), Some("1.2"));
    assert_eq!(c.condition.as_deref(), Some("ARMCC"));
    assert_eq!(c.max_instances, Some(3));
    assert!(c.vendor.is_none());
    assert!(c.is_default);
    assert!(!c.deprecated);
    assert_eq!(c.description, "Startup code");
    assert_eq!(c.rte_addition, "");
    assert!(c.files.is_empty());
}

#[test]
fn component_flags_and_rte_text() {
    let e = component(
        &[("isDefaultVariant", "false"), ("maxInstances", "300")],
        vec![
            el("description", &[], "d", vec![]),
            el("deprecated", &[], "true", vec![]),
            el("RTE_components_h", &[], "#define X", vec![]),
        ],
    );
    let c = ComponentBuilder::from_elem(&e).unwrap();
    assert!(!c.is_default);
    assert!(c.deprecated);
    assert_eq!(c.max_instances, None);
    assert_eq!(c.rte_addition, "#define X");
    let odd = component(
        &[("isDefaultVariant", "yes")],
        vec![el("description", &[], "d", vec![]), el("deprecated", &[], "TRUE", vec![])],
    );
    let c = ComponentBuilder::from_elem(&odd).unwrap();
    assert!(c.is_default);
    assert!(!c.deprecated);
}

#[test]
fn component_needs_a_description() {
    let e = component(&[("Cclass", "Device")], vec![]);
    match ComponentBuilder::from_elem(&e) {
        Err(ParseError::MissingChild { child, elem }) => {
            assert_eq!(child, "description");
            assert_eq!(elem, "component");
        }
        _ => panic!("expected a missing description"),
    }
}

#[test]
fn component_files_only_in_the_empty_namespace() {
    let files = el(
        "files",
        &[],
        "",
        vec![
            el("file", &[("name", "a.c"), ("category", "source")], "", vec![]),
            el("file", &[("name", "b.c")], "", vec![]),
            el("file", &[("name", "c.h"), ("category", "header")], "", vec![]),
        ],
    );
    let without_ns = component(&[], vec![el("description", &[], "d", vec![]), files.clone_tree()]);
    assert!(ComponentBuilder::from_elem(&without_ns).unwrap().files.is_empty());
    let with_ns = component(&[], vec![el("description", &[], "d", vec![]), in_empty_ns(files.clone_tree())]);
    let c = ComponentBuilder::from_elem(&with_ns).unwrap();
    assert_eq!(c.files.len(), 2);
    assert_eq!(c.files[0].path, "a.c");
    assert_eq!(c.files[1].path, "c.h");
}

trait CloneTree {
    fn clone_tree(&self) -> XmlElem;
}

impl CloneTree for XmlElem {
    fn clone_tree(&self) -> XmlElem {
        XmlElem {
            name: self.name.clone(),
            ns: self.ns.clone(),
            attrs: self.attrs.clone(),
            text: self.text.clone(),
            children: self.children.iter().map(|c| c.clone_tree()).collect(),
        }
    }
}

fn bundle(attrs: &[(&str, &str)], comps: Vec<XmlElem>) -> XmlElem {
    let mut children = vec![el("description", &[], "bd", vec![]), el("doc", &[], "doc.html", vec![])];
    children.extend(comps);
    el("bundle", attrs, "", children)
}

#[test]
fn bundle_gives_its_class_version_and_vendor() {
    let e = bundle(
        &[("Cbundle", "B"), ("Cclass", "Board"), ("Cversion", "2.0"), ("Cvendor", "Acme")],
        vec![
            component(&[("Cgroup", "G1")], vec![el("description", &[], "d1", vec![])]),
            component(&[("Cgroup", "G2"), ("Cclass", "Own"), ("Cversion", "9"), ("Cvendor", "Other")], vec![el("description", &[], "d2", vec![])]),
            component(&[("Cgroup", "G3")], vec![]),
            el("other", &[], "", vec![]),
        ],
    );
    let b = Bundle::from_elem(&e).unwrap();
    assert_eq!(b.name, "B");
    assert_eq!(b.description, "bd");
    assert_eq!(b.doc, "doc.html");
    assert_eq!(b.components.len(), 2);
    let cs = b.into_components();
    assert_eq!(cs.len(), 2);
    assert_eq!(cs[0].class.as_deref(), Some("Board"));
    assert_eq!(cs[0].version.as_deref(), Some("2.0"));
    assert_eq!(cs[0].vendor.as_deref(), Some("Acme"));
    assert_eq!(cs[1].class.as_deref(), Some("Own"));
    assert_eq!(cs[1].version.as_deref(), Some("9"));
    assert_eq!(cs[1].vendor.as_deref(), Some("Other"));
}

#[test]
fn bundle_errors_in_order() {
    let no_name = bundle(&[("Cclass", "C"), ("Cversion", "1")], vec![]);
    match Bundle::from_elem(&no_name) {
        Err(ParseError::MissingAttribute { attr, elem }) => {
            assert_eq!(attr, "Cbundle");
            assert_eq!(elem, "bundle");
        }
        _ => panic!("expected a missing Cbundle"),
    }
    let no_doc = el(
        "bundle",
        &[("Cbundle", "B"), ("Cclass", "C"), ("Cversion", "1")],
        "",
        vec![el("description", &[], "d", vec![])],
    );
    match Bundle::from_elem(&no_doc) {
        Err(ParseError::MissingChild { child, .. }) => assert_eq!(child, "doc"),
        _ => panic!("expected a missing doc"),
    }
}

#[test]
fn components_element_flattens_bundles_and_skips_the_rest() {
    let e = el(
        "components",
        &[],
        "",
        vec![
            component(&[("Cclass", "A"), ("Cgroup", "1")], vec![el("description", &[], "d", vec![])]),
            bundle(
                &[("Cbundle", "B"), ("Cclass", "Bc"), ("Cversion", "3")],
                vec![
                    component(&[("Cgroup", "2")], vec![el("description", &[], "d", vec![])]),
                    component(&[("Cgroup", "3")], vec![el("description", &[], "d", vec![])]),
                ],
            ),
            el("api", &[], "", vec![]),
            component(&[("Cgroup", "bad")], vec![]),
        ],
    );
    let cs = ComponentBuilders::from_elem(&e).unwrap().0;
    assert_eq!(cs.len(), 3);
    assert_eq!(cs[0].class.as_deref(), Some("A"));
    assert_eq!(cs[1].class.as_deref(), Some("Bc"));
    assert_eq!(cs[2].group.as_deref(), Some("3"));
    assert_eq!(cs[2].version.as_deref(), Some("3"));
    assert!(matches!(
        child_to_component_iter(&el("api", &[], "", vec![])),
        Err(ParseError::UnexpectedComponent { .. })
    ));
    assert!(matches!(
        ComponentBuilders::from_elem(&el("component", &[], "", vec![])),
        Err(ParseError::WrongElement { .. })
    ));
}
