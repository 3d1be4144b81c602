use vstd::prelude::*;

use crate::parse::{
    assert_root_name, push_item, attr_map, attr_opt, attr_req, ok_of, oks, result_view, root_is, text_req,
    attr_bool, attr_u8, attr_parse_bool, attr_parse_u8, child_text, ParseError, ParseErrorV,
};
use crate::text::{bool_value, parse_bool};
use crate::xml::{attr_of, ns_child_in, str_eq, XmlElem};

verus! {

/// What a file of a component is for.
#[derive(Debug, PartialEq, Eq, Clone, Copy)]
pub enum FileCategory {
    Doc,
    Header,
    Include,
    Library,
    Object,
    Source,
    SourceC,
    SourceCpp,
    SourceAsm,
    LinkerScript,
    Utility,
    Image,
    Other,
}

/// The category that the text `s` names.
pub open spec fn category_of(s: Seq<char>) -> Option<FileCategory> {
    if s == "doc"@ {
        Some(FileCategory::Doc)
    } else if s == "header"@ {
        Some(FileCategory::Header)
    } else if s == "include"@ {
        Some(FileCategory::Include)
    } else if s == "library"@ {
        Some(FileCategory::Library)
    } else if s == "object"@ {
        Some(FileCategory::Object)
    } else if s == "source"@ {
        Some(FileCategory::Source)
    } else if s == "sourceC"@ {
        Some(FileCategory::SourceC)
    } else if s == "sourceCpp"@ {
        Some(FileCategory::SourceCpp)
    } else if s == "sourceAsm"@ {
        Some(FileCategory::SourceAsm)
    } else if s == "linkerScript"@ {
        Some(FileCategory::LinkerScript)
    } else if s == "utility"@ {
        Some(FileCategory::Utility)
    } else if s == "image"@ {
        Some(FileCategory::Image)
    } else if s == "other"@ {
        Some(FileCategory::Other)
    } else {
        None
    }
}

impl FileCategory {
    /// The category whose name is `s`, spelled exactly as the variant.
    pub fn from_str(s: &str) -> (r: Option<FileCategory>)
        ensures
            r == category_of(s@),
    {
        if str_eq(s, "doc") {
            Some(FileCategory::Doc)
        } else if str_eq(s, "header") {
            Some(FileCategory::Header)
        } else if str_eq(s, "include") {
            Some(FileCategory::Include)
        } else if str_eq(s, "library") {
            Some(FileCategory::Library)
        } else if str_eq(s, "object") {
            Some(FileCategory::Object)
        } else if str_eq(s, "source") {
            Some(FileCategory::Source)
        } else if str_eq(s, "sourceC") {
            Some(FileCategory::SourceC)
        } else if str_eq(s, "sourceCpp") {
            Some(FileCategory::SourceCpp)
        } else if str_eq(s, "sourceAsm") {
            Some(FileCategory::SourceAsm)
        } else if str_eq(s, "linkerScript") {
            Some(FileCategory::LinkerScript)
        } else if str_eq(s, "utility") {
            Some(FileCategory::Utility)
        } else if str_eq(s, "image") {
            Some(FileCategory::Image)
        } else if str_eq(s, "other") {
            Some(FileCategory::Other)
        } else {
            None
        }
    }
}

/// A special role of a file of a component.
#[derive(Debug, PartialEq, Eq, Clone, Copy)]
pub enum FileAttribute {
    Config,
    Template,
}

/// The attribute that the text `s` names.
pub open spec fn file_attribute_of(s: Seq<char>) -> Option<FileAttribute> {
    if s == "config"@ {
        Some(FileAttribute::Config)
    } else if s == "template"@ {
        Some(FileAttribute::Template)
    } else {
        None
    }
}

impl FileAttribute {
    /// The attribute whose name is `s`, spelled exactly as the variant.
    pub fn from_str(s: &str) -> (r: Option<FileAttribute>)
        ensures
            r == file_attribute_of(s@),
    {
        if str_eq(s, "config") {
            Some(FileAttribute::Config)
        } else if str_eq(s, "template") {
            Some(FileAttribute::Template)
        } else {
            None
        }
    }
}

/// A file that a component brings.
#[derive(Debug)]
pub struct FileRef {
    pub path: String,
    pub category: FileCategory,
    pub attr: Option<FileAttribute>,
    pub condition: Option<String>,
    pub select: Option<String>,
    pub src: Option<String>,
    pub version: Option<String>,
}

/// [`FileRef`] with its text taken as character sequences.
pub struct FileRefV {
    pub path: Seq<char>,
    pub category: FileCategory,
    pub attr: Option<FileAttribute>,
    pub condition: Option<Seq<char>>,
    pub select: Option<Seq<char>>,
    pub src: Option<Seq<char>>,
    pub version: Option<Seq<char>>,
}

impl DeepView for FileRef {
    type V = FileRefV;

    open spec fn deep_view(&self) -> FileRefV {
        FileRefV {
            path: self.path@,
            category: self.category,
            attr: self.attr,
            condition: self.condition.deep_view(),
            select: self.select.deep_view(),
            src: self.src.deep_view(),
            version: self.version.deep_view(),
        }
    }
}

impl Clone for FileRef {
    fn clone(&self) -> (r: FileRef)
        ensures
            r.deep_view() == self.deep_view(),
    {
        FileRef {
            path: self.path.clone(),
            category: self.category,
            attr: self.attr,
            condition: self.condition.clone(),
            select: self.select.clone(),
            src: self.src.clone(),
            version: self.version.clone(),
        }
    }
}

/// The `category` attribute of a `file` element.
pub open spec fn file_category(e: XmlElem) -> Result<FileCategory, ParseErrorV> {
    match attr_of(e, "category"@) {
        None => Err(ParseErrorV::MissingAttribute { attr: "category"@, elem: "file"@ }),
        Some(v) => match category_of(v) {
            Some(c) => Ok(c),
            None => Err(ParseErrorV::InvalidAttribute { attr: "category"@, elem: "file"@, value: v }),
        },
    }
}

/// What a `file` element reads as.
pub open spec fn file_ref_spec(e: XmlElem) -> Result<FileRefV, ParseErrorV> {
    match root_is(e, "file"@) {
        Err(x) => Err(x),
        Ok(_) => match attr_req(e, "name"@, "file"@) {
            Err(x) => Err(x),
            Ok(path) => match file_category(e) {
                Err(x) => Err(x),
                Ok(category) => Ok(
                    FileRefV {
                        path,
                        category,
                        attr: match attr_of(e, "attr"@) {
                            Some(v) => file_attribute_of(v),
                            None => None,
                        },
                        condition: attr_of(e, "condition"@),
                        select: attr_of(e, "select"@),
                        src: attr_of(e, "src"@),
                        version: attr_of(e, "version"@),
                    },
                ),
            },
        },
    }
}

/// The readable `file` elements among `cs`, in order.
pub open spec fn file_refs_spec(cs: Seq<XmlElem>) -> Seq<FileRefV> {
    oks(cs.map_values(|c: XmlElem| file_ref_spec(c)))
}

impl FileRef {
    /// Reads a `file` element.
    pub fn from_elem(e: &XmlElem) -> (r: Result<FileRef, ParseError>)
        ensures
            result_view(r) == file_ref_spec(*e),
    {
        assert_root_name(e, "file")?;
        let path = attr_map(e, "name", "file")?;
        let category = match e.attr("category") {
            None => {
                return Err(
                    ParseError::MissingAttribute {
                        attr: String::from_str("category"),
                        elem: String::from_str("file"),
                    },
                );
            },
            Some(v) => match FileCategory::from_str(v.as_str()) {
                Some(c) => c,
                None => {
                    return Err(
                        ParseError::InvalidAttribute {
                            attr: String::from_str("category"),
                            elem: String::from_str("file"),
                            value: v.clone(),
                        },
                    );
                },
            },
        };
        let attr = match e.attr("attr") {
            Some(v) => FileAttribute::from_str(v.as_str()),
            None => None,
        };
        Ok(
            FileRef {
                path,
                category,
                attr,
                condition: attr_opt(e, "condition"),
                select: attr_opt(e, "select"),
                src: attr_opt(e, "src"),
                version: attr_opt(e, "version"),
            },
        )
    }

    /// Reads each of `cs` as a `file` element and keeps those that read.
    pub fn vec_from_children(cs: &Vec<XmlElem>) -> (r: Vec<FileRef>)
        ensures
            r.deep_view() == file_refs_spec(cs@),
    {
        let mut out: Vec<FileRef> = Vec::new();
        let mut i: usize = 0;
        while i < cs.len()
            invariant
                i <= cs.len(),
                out.deep_view() == file_refs_spec(cs@.take(i as int)),
            decreases cs.len() - i,
        {
            let ghost f = |c: XmlElem| file_ref_spec(c);
            assert(cs@.take(i + 1).map_values(f).drop_last() =~= cs@.take(i as int).map_values(f));
            assert(cs@.take(i + 1).map_values(f).last() == f(cs@[i as int]));
            match FileRef::from_elem(&cs[i]) {
                Ok(fr) => {
                    out.push(fr);
                },
                Err(_) => {},
            }
            assert(out.deep_view() =~= file_refs_spec(cs@.take(i + 1)));
            i += 1;
        }
        assert(cs@.take(cs.len() as int) =~= cs@);
        out
    }
}

/// A component as declared, before the defaults of its bundle and package
/// are filled in.
#[derive(Debug)]
pub struct ComponentBuilder {
    pub vendor: Option<String>,
    pub class: Option<String>,
    pub group: Option<String>,
    pub sub_group: Option<String>,
    pub variant: Option<String>,
    pub version: Option<String>,
    pub api_version: Option<String>,
    pub condition: Option<String>,
    pub max_instances: Option<u8>,
    pub is_default: bool,
    pub deprecated: bool,
    pub description: String,
    pub rte_addition: String,
    pub files: Vec<FileRef>,
}

/// [`ComponentBuilder`] with its text taken as character sequences.
pub struct ComponentBuilderV {
    pub vendor: Option<Seq<char>>,
    pub class: Option<Seq<char>>,
    pub group: Option<Seq<char>>,
    pub sub_group: Option<Seq<char>>,
    pub variant: Option<Seq<char>>,
    pub version: Option<Seq<char>>,
    pub api_version: Option<Seq<char>>,
    pub condition: Option<Seq<char>>,
    pub max_instances: Option<u8>,
    pub is_default: bool,
    pub deprecated: bool,
    pub description: Seq<char>,
    pub rte_addition: Seq<char>,
    pub files: Seq<FileRefV>,
}

impl DeepView for ComponentBuilder {
    type V = ComponentBuilderV;

    open spec fn deep_view(&self) -> ComponentBuilderV {
        ComponentBuilderV {
            vendor: self.vendor.deep_view(),
            class: self.class.deep_view(),
            group: self.group.deep_view(),
            sub_group: self.sub_group.deep_view(),
            variant: self.variant.deep_view(),
            version: self.version.deep_view(),
            api_version: self.api_version.deep_view(),
            condition: self.condition.deep_view(),
            max_instances: self.max_instances,
            is_default: self.is_default,
            deprecated: self.deprecated,
            description: self.description@,
            rte_addition: self.rte_addition@,
            files: self.files.deep_view(),
        }
    }
}

/// A copy of `files`, element by element.
pub fn clone_file_refs(files: &Vec<FileRef>) -> (r: Vec<FileRef>)
    ensures
        r.deep_view() == files.deep_view(),
{
    let mut out: Vec<FileRef> = Vec::new();
    let mut i: usize = 0;
    while i < files.len()
        invariant
            i <= files.len(),
            out.deep_view() =~= files.deep_view().take(i as int),
        decreases files.len() - i,
    {
        let c = files[i].clone();
        assert(c.deep_view() == files@[i as int].deep_view());
        push_item(&mut out, c);
        assert(files.deep_view().take(i + 1) =~= files.deep_view().take(i as int).push(c.deep_view()));
        i += 1;
    }
    out
}

impl Clone for ComponentBuilder {
    fn clone(&self) -> (r: ComponentBuilder)
        ensures
            r.deep_view() == self.deep_view(),
    {
        ComponentBuilder {
            vendor: self.vendor.clone(),
            class: self.class.clone(),
            group: self.group.clone(),
            sub_group: self.sub_group.clone(),
            variant: self.variant.clone(),
            version: self.version.clone(),
            api_version: self.api_version.clone(),
            condition: self.condition.clone(),
            max_instances: self.max_instances,
            is_default: self.is_default,
            deprecated: self.deprecated,
            description: self.description.clone(),
            rte_addition: self.rte_addition.clone(),
            files: clone_file_refs(&self.files),
        }
    }
}

/// The files that a `component` element lists: the readable `file`
/// children of its first `files` child in the empty namespace.
pub open spec fn component_files(e: XmlElem) -> Seq<FileRefV> {
    match ns_child_in(e.children@, "files"@, ""@) {
        Some(f) => file_refs_spec(f.children@),
        None => Seq::empty(),
    }
}

/// What a `component` element reads as.
pub open spec fn component_builder_spec(e: XmlElem) -> Result<ComponentBuilderV, ParseErrorV> {
    match root_is(e, "component"@) {
        Err(x) => Err(x),
        Ok(_) => match text_req(e, "description"@, "component"@) {
            Err(x) => Err(x),
            Ok(description) => Ok(
                ComponentBuilderV {
                    vendor: attr_of(e, "Cvendor"@),
                    class: attr_of(e, "Cclass"@),
                    group: attr_of(e, "Cgroup"@),
                    sub_group: attr_of(e, "Csub"@),
                    variant: attr_of(e, "Cvariant"@),
                    version: attr_of(e, "Cversion"@),
                    api_version: attr_of(e, "Capiversion"@),
                    condition: attr_of(e, "condition"@),
                    max_instances: ok_of(attr_u8(e, "maxInstances"@, "component"@)),
                    is_default: match attr_bool(e, "isDefaultVariant"@, "component"@) {
                        Ok(b) => b,
                        Err(_) => true,
                    },
                    deprecated: match text_req(e, "deprecated"@, "component"@) {
                        Ok(t) => match bool_value(t) {
                            Some(b) => b,
                            None => false,
                        },
                        Err(_) => false,
                    },
                    description,
                    rte_addition: match text_req(e, "RTE_components_h"@, "component"@) {
                        Ok(t) => t,
                        Err(_) => Seq::empty(),
                    },
                    files: component_files(e),
                },
            ),
        },
    }
}

impl ComponentBuilder {
    /// Reads a `component` element.
    pub fn from_elem(e: &XmlElem) -> (r: Result<ComponentBuilder, ParseError>)
        ensures
            result_view(r) == component_builder_spec(*e),
    {
        assert_root_name(e, "component")?;
        let vendor = attr_opt(e, "Cvendor");
        let class = attr_opt(e, "Cclass");
        let group = attr_opt(e, "Cgroup");
        let sub_group = attr_opt(e, "Csub");
        let files = match e.child_in_ns("files", "") {
            Some(f) => FileRef::vec_from_children(&f.children),
            None => Vec::new(),
        };
        let version = attr_opt(e, "Cversion");
        let variant = attr_opt(e, "Cvariant");
        let api_version = attr_opt(e, "Capiversion");
        let condition = attr_opt(e, "condition");
        let max_instances = match attr_parse_u8(e, "maxInstances", "component") {
            Ok(n) => Some(n),
            Err(_) => None,
        };
        let is_default = match attr_parse_bool(e, "isDefaultVariant", "component") {
            Ok(b) => b,
            Err(_) => true,
        };
        let description = child_text(e, "description", "component")?;
        let deprecated = match child_text(e, "deprecated", "component") {
            Ok(t) => match parse_bool(t.as_str()) {
                Some(b) => b,
                None => false,
            },
            Err(_) => false,
        };
        let rte_addition = match child_text(e, "RTE_components_h", "component") {
            Ok(t) => t,
            Err(_) => String::new(),
        };
        let ghost spec_files = component_files(*e);
        assert(files.deep_view() == spec_files);
        assert(description@ == text_req(*e, "description"@, "component"@)->Ok_0);
        Ok(
            ComponentBuilder {
                vendor,
                class,
                group,
                sub_group,
                variant,
                version,
                api_version,
                condition,
                max_instances,
                is_default,
                deprecated,
                description,
                rte_addition,
                files,
            },
        )
    }
}

/// A bundle of components that share a class, a version and a vendor.
#[derive(Debug)]
pub struct Bundle {
    pub name: String,
    pub class: String,
    pub version: String,
    pub vendor: Option<String>,
    pub description: String,
    pub doc: String,
    pub components: Vec<ComponentBuilder>,
}

/// [`Bundle`] with its text taken as character sequences.
pub struct BundleV {
    pub name: Seq<char>,
    pub class: Seq<char>,
    pub version: Seq<char>,
    pub vendor: Option<Seq<char>>,
    pub description: Seq<char>,
    pub doc: Seq<char>,
    pub components: Seq<ComponentBuilderV>,
}

impl DeepView for Bundle {
    type V = BundleV;

    open spec fn deep_view(&self) -> BundleV {
        BundleV {
            name: self.name@,
            class: self.class@,
            version: self.version@,
            vendor: self.vendor.deep_view(),
            description: self.description@,
            doc: self.doc@,
            components: self.components.deep_view(),
        }
    }
}

/// The readable `component` elements among `cs`, in order.
pub open spec fn component_builders_spec(cs: Seq<XmlElem>) -> Seq<ComponentBuilderV> {
    oks(cs.map_values(|c: XmlElem| component_builder_spec(c)))
}

/// What a `bundle` element reads as.
pub open spec fn bundle_spec(e: XmlElem) -> Result<BundleV, ParseErrorV> {
    match root_is(e, "bundle"@) {
        Err(x) => Err(x),
        Ok(_) => match attr_req(e, "Cbundle"@, "bundle"@) {
            Err(x) => Err(x),
            Ok(name) => match attr_req(e, "Cclass"@, "bundle"@) {
                Err(x) => Err(x),
                Ok(class) => match attr_req(e, "Cversion"@, "bundle"@) {
                    Err(x) => Err(x),
                    Ok(version) => match text_req(e, "description"@, "bundle"@) {
                        Err(x) => Err(x),
                        Ok(description) => match text_req(e, "doc"@, "bundle"@) {
                            Err(x) => Err(x),
                            Ok(doc) => Ok(
                                BundleV {
                                    name,
                                    class,
                                    version,
                                    vendor: attr_of(e, "Cvendor"@),
                                    description,
                                    doc,
                                    components: component_builders_spec(e.children@),
                                },
                            ),
                        },
                    },
                },
            },
        },
    }
}

/// `c` with the class, version and vendor of its bundle where it names none.
pub open spec fn with_bundle_defaults(
    c: ComponentBuilderV,
    class: Seq<char>,
    version: Seq<char>,
    vendor: Option<Seq<char>>,
) -> ComponentBuilderV {
    ComponentBuilderV {
        class: match c.class {
            Some(x) => Some(x),
            None => Some(class),
        },
        version: match c.version {
            Some(x) => Some(x),
            None => Some(version),
        },
        vendor: match c.vendor {
            Some(x) => Some(x),
            None => vendor,
        },
        ..c
    }
}

/// Reads each of `cs` as a `component` element and keeps those that read.
pub fn component_builders_from(cs: &Vec<XmlElem>) -> (r: Vec<ComponentBuilder>)
    ensures
        r.deep_view() == component_builders_spec(cs@),
{
    let mut out: Vec<ComponentBuilder> = Vec::new();
    let mut i: usize = 0;
    while i < cs.len()
        invariant
            i <= cs.len(),
            out.deep_view() == component_builders_spec(cs@.take(i as int)),
        decreases cs.len() - i,
    {
        let ghost f = |c: XmlElem| component_builder_spec(c);
        assert(cs@.take(i + 1).map_values(f).drop_last() =~= cs@.take(i as int).map_values(f));
        assert(cs@.take(i + 1).map_values(f).last() == f(cs@[i as int]));
        if cs[i].name == String::from_str("component") {
            match ComponentBuilder::from_elem(&cs[i]) {
                Ok(c) => {
                    out.push(c);
                },
                Err(_) => {},
            }
        }
        assert(out.deep_view() =~= component_builders_spec(cs@.take(i + 1)));
        i += 1;
    }
    assert(cs@.take(cs.len() as int) =~= cs@);
    out
}

impl Bundle {
    /// Reads a `bundle` element.
    pub fn from_elem(e: &XmlElem) -> (r: Result<Bundle, ParseError>)
        ensures
            result_view(r) == bundle_spec(*e),
    {
        assert_root_name(e, "bundle")?;
        let name = attr_map(e, "Cbundle", "bundle")?;
        let class = attr_map(e, "Cclass", "bundle")?;
        let version = attr_map(e, "Cversion", "bundle")?;
        let components = component_builders_from(&e.children);
        let vendor = attr_opt(e, "Cvendor");
        let description = child_text(e, "description", "bundle")?;
        let doc = child_text(e, "doc", "bundle")?;
        Ok(Bundle { name, class, version, vendor, description, doc, components })
    }

    /// The components of the bundle, each given the bundle's class, version
    /// and vendor where it names none of its own.
    pub fn into_components(self) -> (r: Vec<ComponentBuilder>)
        ensures
            r.deep_view() == self.components.deep_view().map_values(
                |c: ComponentBuilderV|
                    with_bundle_defaults(c, self.class@, self.version@, self.vendor.deep_view()),
            ),
    {
        let ghost f = |c: ComponentBuilderV|
            with_bundle_defaults(c, self.class@, self.version@, self.vendor.deep_view());
        let mut out: Vec<ComponentBuilder> = Vec::new();
        let mut i: usize = 0;
        while i < self.components.len()
            invariant
                i <= self.components.len(),
                f == (|c: ComponentBuilderV|
                    with_bundle_defaults(c, self.class@, self.version@, self.vendor.deep_view())),
                out.deep_view() =~= self.components.deep_view().take(i as int).map_values(f),
            decreases self.components.len() - i,
        {
            let mut comp = self.components[i].clone();
            if comp.class.is_none() {
                comp.class = Some(self.class.clone());
            }
            if comp.version.is_none() {
                comp.version = Some(self.version.clone());
            }
            if comp.vendor.is_none() {
                comp.vendor = self.vendor.clone();
            }
            assert(comp.deep_view() == f(self.components@[i as int].deep_view()));
            push_item(&mut out, comp);
            assert(self.components.deep_view().take(i + 1).map_values(f) =~= self.components.deep_view().take(i as int).map_values(f).push(f(self.components@[i as int].deep_view())));
            i += 1;
        }
        out
    }
}

/// What one child of a `components` element contributes: the components of
/// a `bundle`, or a single `component`.
pub open spec fn component_child_spec(e: XmlElem) -> Result<Seq<ComponentBuilderV>, ParseErrorV> {
    if e.name@ == "bundle"@ {
        match bundle_spec(e) {
            Ok(b) => Ok(
                b.components.map_values(
                    |c: ComponentBuilderV| with_bundle_defaults(c, b.class, b.version, b.vendor),
                ),
            ),
            Err(x) => Err(x),
        }
    } else if e.name@ == "component"@ {
        match component_builder_spec(e) {
            Ok(c) => Ok(seq![c]),
            Err(x) => Err(x),
        }
    } else {
        Err(ParseErrorV::UnexpectedComponent { name: e.name@ })
    }
}

/// Reads one child of a `components` element.
pub fn child_to_component_iter(e: &XmlElem) -> (r: Result<Vec<ComponentBuilder>, ParseError>)
    ensures
        result_view(r) == component_child_spec(*e),
{
    if e.name == String::from_str("bundle") {
        let bundle = Bundle::from_elem(e)?;
        Ok(bundle.into_components())
    } else if e.name == String::from_str("component") {
        let component = ComponentBuilder::from_elem(e)?;
        let mut v = Vec::new();
        v.push(component);
        assert(v.deep_view() =~= seq![component.deep_view()]);
        Ok(v)
    } else {
        Err(ParseError::UnexpectedComponent { name: e.name.clone() })
    }
}

/// The components that the children of a `components` element declare, in
/// order; a child that does not read contributes none.
pub open spec fn components_list_spec(cs: Seq<XmlElem>) -> Seq<ComponentBuilderV>
    decreases cs.len(),
{
    if cs.len() == 0 {
        Seq::empty()
    } else {
        match component_child_spec(cs.last()) {
            Ok(v) => components_list_spec(cs.drop_last()) + v,
            Err(_) => components_list_spec(cs.drop_last()),
        }
    }
}

/// What a `components` element reads as.
pub open spec fn component_builders_elem_spec(e: XmlElem) -> Result<
    Seq<ComponentBuilderV>,
    ParseErrorV,
> {
    match root_is(e, "components"@) {
        Err(x) => Err(x),
        Ok(_) => Ok(components_list_spec(e.children@)),
    }
}

/// The components of a pack, as declared.
#[derive(Debug)]
pub struct ComponentBuilders(pub Vec<ComponentBuilder>);

impl DeepView for ComponentBuilders {
    type V = Seq<ComponentBuilderV>;

    open spec fn deep_view(&self) -> Seq<ComponentBuilderV> {
        self.0.deep_view()
    }
}

impl ComponentBuilders {
    /// No components.
    pub fn new() -> (r: ComponentBuilders)
        ensures
            r.deep_view() == Seq::<ComponentBuilderV>::empty(),
    {
        let v: Vec<ComponentBuilder> = Vec::new();
        assert(v.deep_view() =~= Seq::<ComponentBuilderV>::empty());
        ComponentBuilders(v)
    }

    /// Reads a `components` element.
    pub fn from_elem(e: &XmlElem) -> (r: Result<ComponentBuilders, ParseError>)
        ensures
            result_view(r) == component_builders_elem_spec(*e),
    {
        assert_root_name(e, "components")?;
        let mut out: Vec<ComponentBuilder> = Vec::new();
        let mut i: usize = 0;
        while i < e.children.len()
            invariant
                i <= e.children.len(),
                out.deep_view() =~= components_list_spec(e.children@.take(i as int)),
            decreases e.children.len() - i,
        {
            assert(e.children@.take(i + 1).drop_last() =~= e.children@.take(i as int));
            match child_to_component_iter(&e.children[i]) {
                Ok(mut v) => {
                    out.append(&mut v);
                },
                Err(_) => {},
            }
            i += 1;
        }
        assert(e.children@.take(e.children.len() as int) =~= e.children@);
        Ok(ComponentBuilders(out))
    }
}

} // verus!
