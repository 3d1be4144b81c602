use vstd::prelude::*;

use crate::component::{
    clone_file_refs, component_builders_elem_spec, ComponentBuilderV, ComponentBuilders, FileRef,
    FileRefV,
};
use crate::condition::{conditions_spec, ConditionV, Conditions};
use crate::device::{
    devices_list_spec, devices_readable, family_readable, memories_readable, memory_readable,
    sub_family_readable, DeviceV, Devices,
};
use crate::parse::{
    attr_map, attr_req, child_text, oks, ok_of, push_item, result_view, root_is, text_req,
    assert_root_name, ParseError, ParseErrorV,
};
use crate::release::{releases_spec, ReleaseV, Releases};
use crate::xml::{attr_of, child_in, parse_xml, xml_document, XmlElem};

verus! {

/// A development board and the devices mounted on it.
#[derive(Debug)]
pub struct Board {
    pub name: String,
    pub mounted_devices: Vec<String>,
}

/// [`Board`] with its text taken as character sequences.
pub struct BoardV {
    pub name: Seq<char>,
    pub mounted_devices: Seq<Seq<char>>,
}

impl DeepView for Board {
    type V = BoardV;

    open spec fn deep_view(&self) -> BoardV {
        BoardV { name: self.name@, mounted_devices: self.mounted_devices.deep_view() }
    }
}

/// The `Dname` of each `mountedDevice` element among `cs` that has one.
pub open spec fn mounted_devices_spec(cs: Seq<XmlElem>) -> Seq<Seq<char>>
    decreases cs.len(),
{
    if cs.len() == 0 {
        Seq::empty()
    } else if cs.last().name@ == "mountedDevice"@ && attr_of(cs.last(), "Dname"@) is Some {
        mounted_devices_spec(cs.drop_last()).push(attr_of(cs.last(), "Dname"@)->Some_0)
    } else {
        mounted_devices_spec(cs.drop_last())
    }
}

/// What a `board` element reads as.
pub open spec fn board_spec(e: XmlElem) -> Result<BoardV, ParseErrorV> {
    match attr_req(e, "name"@, "board"@) {
        Err(x) => Err(x),
        Ok(name) => Ok(BoardV { name, mounted_devices: mounted_devices_spec(e.children@) }),
    }
}

/// The readable `board` elements among `cs`, in order.
pub open spec fn boards_list_spec(cs: Seq<XmlElem>) -> Seq<BoardV> {
    oks(cs.map_values(|c: XmlElem| board_spec(c)))
}

impl Clone for Board {
    fn clone(&self) -> (r: Board)
        ensures
            r.deep_view() == self.deep_view(),
    {
        let mut devices: Vec<String> = Vec::new();
        let mut i: usize = 0;
        while i < self.mounted_devices.len()
            invariant
                i <= self.mounted_devices.len(),
                devices.deep_view() =~= self.mounted_devices.deep_view().take(i as int),
            decreases self.mounted_devices.len() - i,
        {
            let d = self.mounted_devices[i].clone();
            push_item(&mut devices, d);
            i += 1;
        }
        assert(self.mounted_devices.deep_view().take(i as int) =~= self.mounted_devices.deep_view());
        Board { name: self.name.clone(), mounted_devices: devices }
    }
}

impl Board {
    /// Reads a `board` element.
    pub fn from_elem(e: &XmlElem) -> (r: Result<Board, ParseError>)
        ensures
            result_view(r) == board_spec(*e),
    {
        let name = attr_map(e, "name", "board")?;
        let mut mounted_devices: Vec<String> = Vec::new();
        let mut i: usize = 0;
        while i < e.children.len()
            invariant
                i <= e.children.len(),
                mounted_devices.deep_view() == mounted_devices_spec(e.children@.take(i as int)),
            decreases e.children.len() - i,
        {
            let c = &e.children[i];
            assert(e.children@.take(i + 1).drop_last() =~= e.children@.take(i as int));
            assert(e.children@.take(i + 1).last() == e.children@[i as int]);
            if c.name == String::from_str("mountedDevice") {
                match c.attr("Dname") {
                    Some(d) => push_item(&mut mounted_devices, d.clone()),
                    None => {},
                }
            }
            i += 1;
        }
        assert(e.children@.take(e.children.len() as int) =~= e.children@);
        Ok(Board { name, mounted_devices })
    }

    /// Reads each of `cs` as a `board` element and keeps those that read.
    pub fn vec_from_children(cs: &Vec<XmlElem>) -> (r: Vec<Board>)
        ensures
            r.deep_view() == boards_list_spec(cs@),
    {
        let mut out: Vec<Board> = Vec::new();
        let mut i: usize = 0;
        let ghost f = |c: XmlElem| board_spec(c);
        while i < cs.len()
            invariant
                i <= cs.len(),
                f == (|c: XmlElem| board_spec(c)),
                out.deep_view() == oks(cs@.take(i as int).map_values(f)),
            decreases cs.len() - i,
        {
            assert(cs@.take(i + 1).map_values(f).drop_last() =~= cs@.take(i as int).map_values(f));
            assert(cs@.take(i + 1).map_values(f).last() == f(cs@[i as int]));
            match Board::from_elem(&cs[i]) {
                Ok(b) => push_item(&mut out, b),
                Err(_) => {},
            }
            i += 1;
        }
        assert(cs@.take(cs.len() as int) =~= cs@);
        out
    }
}

/// A software pack as its description file declares it.
#[derive(Debug)]
pub struct Package {
    pub name: String,
    pub description: String,
    pub vendor: String,
    pub url: String,
    pub license: Option<String>,
    pub components: ComponentBuilders,
    pub releases: Releases,
    pub conditions: Conditions,
    pub devices: Devices,
    pub boards: Vec<Board>,
}

/// [`Package`] with its text taken as character sequences and its devices
/// as a map.
pub struct PackageV {
    pub name: Seq<char>,
    pub description: Seq<char>,
    pub vendor: Seq<char>,
    pub url: Seq<char>,
    pub license: Option<Seq<char>>,
    pub components: Seq<ComponentBuilderV>,
    pub releases: Seq<ReleaseV>,
    pub conditions: Seq<ConditionV>,
    pub devices: Map<Seq<char>, DeviceV>,
    pub boards: Seq<BoardV>,
}

impl DeepView for Package {
    type V = PackageV;

    open spec fn deep_view(&self) -> PackageV {
        PackageV {
            name: self.name@,
            description: self.description@,
            vendor: self.vendor@,
            url: self.url@,
            license: self.license.deep_view(),
            components: self.components.deep_view(),
            releases: self.releases.deep_view(),
            conditions: self.conditions.deep_view(),
            devices: self.devices.deep_view(),
            boards: self.boards.deep_view(),
        }
    }
}

/// Whether every `memory` element that the devices of a `package` element
/// hold says how it may be accessed.
pub open spec fn package_readable(e: XmlElem) -> bool {
    match child_in(e.children@, "devices"@) {
        Some(d) => devices_readable(d),
        None => true,
    }
}

/// The checks that a `package` element passes before any of its optional
/// parts are read: its name, and its `name`, `description`, `vendor` and
/// `url` children, in that order; the first that fails gives the error.
pub open spec fn package_header_spec(e: XmlElem) -> Result<(), ParseErrorV> {
    match root_is(e, "package"@) {
        Err(x) => Err(x),
        Ok(_) => match text_req(e, "name"@, "package"@) {
            Err(x) => Err(x),
            Ok(_) => match text_req(e, "description"@, "package"@) {
                Err(x) => Err(x),
                Ok(_) => match text_req(e, "vendor"@, "package"@) {
                    Err(x) => Err(x),
                    Ok(_) => match text_req(e, "url"@, "package"@) {
                        Err(x) => Err(x),
                        Ok(_) => Ok(()),
                    },
                },
            },
        },
    }
}

/// Checks a `package` element as [`package_header_spec`] says.
pub fn check_package_header(e: &XmlElem) -> (r: Result<(), ParseError>)
    ensures
        r is Ok <==> package_header_spec(*e) is Ok,
        r matches Err(x) ==> package_header_spec(*e) == Err::<(), ParseErrorV>(x.deep_view()),
{
    assert_root_name(e, "package")?;
    child_text(e, "name", "package")?;
    child_text(e, "description", "package")?;
    child_text(e, "vendor", "package")?;
    child_text(e, "url", "package")?;
    Ok(())
}

/// What a `package` element reads as. Its name, description, vendor and url
/// are required; each other part that is absent or does not read is empty.
pub open spec fn package_spec(e: XmlElem) -> Result<PackageV, ParseErrorV> {
    match root_is(e, "package"@) {
        Err(x) => Err(x),
        Ok(_) => match text_req(e, "name"@, "package"@) {
            Err(x) => Err(x),
            Ok(name) => match text_req(e, "description"@, "package"@) {
                Err(x) => Err(x),
                Ok(description) => match text_req(e, "vendor"@, "package"@) {
                    Err(x) => Err(x),
                    Ok(vendor) => match text_req(e, "url"@, "package"@) {
                        Err(x) => Err(x),
                        Ok(url) => Ok(
                            PackageV {
                                name,
                                description,
                                vendor,
                                url,
                                license: ok_of(text_req(e, "license"@, "package"@)),
                                components: match child_in(e.children@, "components"@) {
                                    Some(c) => match component_builders_elem_spec(c) {
                                        Ok(v) => v,
                                        Err(_) => Seq::empty(),
                                    },
                                    None => Seq::empty(),
                                },
                                releases: match child_in(e.children@, "releases"@) {
                                    Some(c) => match releases_spec(c) {
                                        Ok(v) => v,
                                        Err(_) => Seq::empty(),
                                    },
                                    None => Seq::empty(),
                                },
                                conditions: match child_in(e.children@, "conditions"@) {
                                    Some(c) => match conditions_spec(c) {
                                        Ok(v) => v,
                                        Err(_) => Seq::empty(),
                                    },
                                    None => Seq::empty(),
                                },
                                devices: match child_in(e.children@, "devices"@) {
                                    Some(c) => match devices_list_spec(c.children@) {
                                        Ok(m) => m,
                                        Err(_) => Map::empty(),
                                    },
                                    None => Map::empty(),
                                },
                                boards: match child_in(e.children@, "boards"@) {
                                    Some(c) => boards_list_spec(c.children@),
                                    None => Seq::empty(),
                                },
                            },
                        ),
                    },
                },
            },
        },
    }
}

/// Whether every `memory` child of `e` says how it may be accessed.
fn check_memories(cs: &Vec<XmlElem>) -> (r: bool)
    ensures
        r == memories_readable(cs@),
{
    let mut i: usize = 0;
    while i < cs.len()
        invariant
            i <= cs.len(),
            forall|j: int|
                0 <= j < i && #[trigger] cs@[j].name@ == "memory"@ ==> memory_readable(cs@[j]),
        decreases cs.len() - i,
    {
        if cs[i].name == String::from_str("memory") && cs[i].attr("id").is_none()
            && cs[i].attr("access").is_none() {
            return false;
        }
        i += 1;
    }
    true
}

/// Whether a sub-family holds only readable `memory` elements.
fn check_sub_family(c: &XmlElem) -> (r: bool)
    ensures
        r == sub_family_readable(*c),
{
    if !check_memories(&c.children) {
        return false;
    }
    let mut t: usize = 0;
    while t < c.children.len()
        invariant
            t <= c.children.len(),
            forall|j: int|
                0 <= j < t && #[trigger] c.children@[j].name@ == "device"@ ==> memories_readable(
                    c.children@[j].children@,
                ),
        decreases c.children.len() - t,
    {
        if c.children[t].name == String::from_str("device") && !check_memories(
            &c.children[t].children,
        ) {
            return false;
        }
        t += 1;
    }
    true
}

/// Whether a family holds only readable `memory` elements.
fn check_family(f: &XmlElem) -> (r: bool)
    ensures
        r == family_readable(*f),
{
    if !check_memories(&f.children) {
        return false;
    }
    let mut k: usize = 0;
    while k < f.children.len()
        invariant
            k <= f.children.len(),
            forall|j: int|
                0 <= j < k && #[trigger] f.children@[j].name@ == "subFamily"@
                    ==> sub_family_readable(f.children@[j]),
            forall|j: int|
                0 <= j < k && #[trigger] f.children@[j].name@ == "device"@ ==> memories_readable(
                    f.children@[j].children@,
                ),
        decreases f.children.len() - k,
    {
        let c = &f.children[k];
        proof {
            reveal_strlit("device");
            reveal_strlit("subFamily");
            assert("device"@.len() == 6 && "subFamily"@.len() == 9);
        }
        if c.name == String::from_str("device") {
            if !check_memories(&c.children) {
                return false;
            }
        } else if c.name == String::from_str("subFamily") {
            if !check_sub_family(c) {
                return false;
            }
        }
        k += 1;
    }
    true
}

/// Whether every `memory` element of the devices of a `package` element
/// says how it may be accessed, as [`package_readable`] states.
pub fn check_package_readable(e: &XmlElem) -> (r: bool)
    ensures
        r == package_readable(*e),
{
    let devices = match e.child("devices") {
        Some(d) => d,
        None => {
            return true;
        },
    };
    let mut i: usize = 0;
    while i < devices.children.len()
        invariant
            i <= devices.children.len(),
            child_in(e.children@, "devices"@) == Some(*devices),
            forall|j: int| 0 <= j < i ==> #[trigger] family_readable(devices.children@[j]),
        decreases devices.children.len() - i,
    {
        if !check_family(&devices.children[i]) {
            return false;
        }
        i += 1;
    }
    true
}

impl Package {
    /// Reads a `package` element.
    pub fn from_elem(e: &XmlElem) -> (r: Result<Package, ParseError>)
        requires
            package_header_spec(*e) is Ok ==> package_readable(*e),
        ensures
            result_view(r) == package_spec(*e),
    {
        assert_root_name(e, "package")?;
        let name = child_text(e, "name", "package")?;
        let description = child_text(e, "description", "package")?;
        let vendor = child_text(e, "vendor", "package")?;
        let url = child_text(e, "url", "package")?;
        let components = match e.child("components") {
            Some(c) => match ComponentBuilders::from_elem(c) {
                Ok(v) => v,
                Err(_) => ComponentBuilders::new(),
            },
            None => ComponentBuilders::new(),
        };
        let releases = match e.child("releases") {
            Some(c) => match Releases::from_elem(c) {
                Ok(v) => v,
                Err(_) => Releases::new(),
            },
            None => Releases::new(),
        };
        let conditions = match e.child("conditions") {
            Some(c) => match Conditions::from_elem(c) {
                Ok(v) => v,
                Err(_) => Conditions::new(),
            },
            None => Conditions::new(),
        };
        let devices = match e.child("devices") {
            Some(c) => match Devices::from_elem(c) {
                Ok(v) => v,
                Err(_) => Devices::new(),
            },
            None => Devices::new(),
        };
        let boards = match e.child("boards") {
            Some(c) => Board::vec_from_children(&c.children),
            None => {
                let v: Vec<Board> = Vec::new();
                assert(v.deep_view() =~= Seq::<BoardV>::empty());
                v
            },
        };
        let license = match child_text(e, "license", "package") {
            Ok(t) => Some(t),
            Err(_) => None,
        };
        Ok(
            Package {
                name,
                description,
                vendor,
                url,
                components,
                license,
                releases,
                conditions,
                devices,
                boards,
            },
        )
    }
}

/// Why a pack description could not be loaded.
#[derive(Debug)]
pub enum LoadError {
    /// The text is no XML document that `minidom` accepts.
    Xml(String),
    /// The document is no pack description.
    Parse(ParseError),
    /// A `memory` element of a device says neither its `id` nor its
    /// `access`.
    UnreadableMemory,
}

impl Package {
    /// Loads a pack description from the text of its file.
    pub fn from_string(text: &str) -> (r: Result<Package, LoadError>)
        ensures
            match xml_document(text@) {
                None => r matches Err(LoadError::Xml(_)),
                Some(e) => match package_header_spec(e) {
                    Err(h) => r matches Err(LoadError::Parse(x)) && x.deep_view() == h
                        && package_spec(e) == Err::<PackageV, ParseErrorV>(h),
                    Ok(_) => if !package_readable(e) {
                        r matches Err(LoadError::UnreadableMemory)
                    } else {
                        match r {
                            Ok(p) => package_spec(e) == Ok::<PackageV, ParseErrorV>(p.deep_view()),
                            Err(LoadError::Parse(x)) => package_spec(e) == Err::<PackageV, ParseErrorV>(
                                x.deep_view(),
                            ),
                            Err(_) => false,
                        }
                    },
                },
            },
    {
        let root = match parse_xml(text) {
            Ok(root) => root,
            Err(msg) => {
                return Err(LoadError::Xml(msg));
            },
        };
        match check_package_header(&root) {
            Ok(()) => {},
            Err(x) => {
                return Err(LoadError::Parse(x));
            },
        }
        if !check_package_readable(&root) {
            return Err(LoadError::UnreadableMemory);
        }
        match Package::from_elem(&root) {
            Ok(p) => Ok(p),
            Err(x) => Err(LoadError::Parse(x)),
        }
    }
}

/// A component with the defaults of its bundle and package filled in.
#[derive(Debug)]
pub struct Component {
    pub vendor: String,
    pub class: String,
    pub group: String,
    pub sub_group: Option<String>,
    pub variant: Option<String>,
    pub version: String,
    pub api_version: Option<String>,
    pub condition: Option<String>,
    pub max_instances: Option<u8>,
    pub is_default: bool,
    pub deprecated: bool,
    pub description: String,
    pub rte_addition: String,
    pub files: Vec<FileRef>,
}

/// [`Component`] with its text taken as character sequences.
pub struct ComponentV {
    pub vendor: Seq<char>,
    pub class: Seq<char>,
    pub group: Seq<char>,
    pub sub_group: Option<Seq<char>>,
    pub variant: Option<Seq<char>>,
    pub version: Seq<char>,
    pub api_version: Option<Seq<char>>,
    pub condition: Option<Seq<char>>,
    pub max_instances: Option<u8>,
    pub is_default: bool,
    pub deprecated: bool,
    pub description: Seq<char>,
    pub rte_addition: Seq<char>,
    pub files: Seq<FileRefV>,
}

impl DeepView for Component {
    type V = ComponentV;

    open spec fn deep_view(&self) -> ComponentV {
        ComponentV {
            vendor: self.vendor@,
            class: self.class@,
            group: self.group@,
            sub_group: self.sub_group.deep_view(),
            variant: self.variant.deep_view(),
            version: self.version@,
            api_version: self.api_version.deep_view(),
            condition: self.condition.deep_view(),
            max_instances: self.max_instances,
            is_default: self.is_default,
            deprecated: self.deprecated,
            description: self.description@,
            rte_addition: self.rte_addition@,
            files: self.files.deep_view(),
        }
    }
}

/// Whether every component of `p` names its class and group, and, where it
/// names no version, `p` has a release to take the version from.
pub open spec fn components_complete(p: PackageV) -> bool {
    forall|i: int|
        0 <= i < p.components.len() ==> {
            &&& (#[trigger] p.components[i]).class is Some
            &&& p.components[i].group is Some
            &&& (p.components[i].version is None ==> p.releases.len() > 0)
        }
}

/// The component that `c` makes in `p`: the pack's vendor where `c` names
/// none, and the version of the pack's latest release where `c` names none.
pub open spec fn component_spec(c: ComponentBuilderV, p: PackageV) -> ComponentV {
    ComponentV {
        vendor: match c.vendor {
            Some(v) => v,
            None => p.vendor,
        },
        class: c.class->Some_0,
        group: c.group->Some_0,
        sub_group: c.sub_group,
        variant: c.variant,
        version: match c.version {
            Some(v) => v,
            None => p.releases[0].version,
        },
        api_version: c.api_version,
        condition: c.condition,
        max_instances: c.max_instances,
        is_default: c.is_default,
        deprecated: c.deprecated,
        description: c.description,
        rte_addition: c.rte_addition,
        files: c.files,
    }
}

/// The components of `p`, with their defaults filled in.
pub open spec fn components_of(p: PackageV) -> Seq<ComponentV> {
    p.components.map_values(|c: ComponentBuilderV| component_spec(c, p))
}

impl Package {
    /// Whether every component can be completed, as
    /// [`components_complete`] states.
    pub fn components_complete(&self) -> (r: bool)
        ensures
            r == components_complete(self.deep_view()),
    {
        let comps = &self.components.0;
        let mut i: usize = 0;
        while i < comps.len()
            invariant
                i <= comps.len(),
                comps == self.components.0,
                forall|j: int|
                    0 <= j < i ==> {
                        &&& (#[trigger] self.deep_view().components[j]).class is Some
                        &&& self.deep_view().components[j].group is Some
                        &&& (self.deep_view().components[j].version is None
                            ==> self.deep_view().releases.len() > 0)
                    },
            decreases comps.len() - i,
        {
            let c = &comps[i];
            if c.class.is_none() || c.group.is_none() || (c.version.is_none()
                && self.releases.0.len() == 0) {
                assert(self.deep_view().components[i as int] == c.deep_view());
                return false;
            }
            i += 1;
        }
        true
    }

    /// The components of the pack, with their defaults filled in.
    pub fn make_components(&self) -> (r: Vec<Component>)
        requires
            components_complete(self.deep_view()),
        ensures
            r.deep_view() == components_of(self.deep_view()),
    {
        let comps = &self.components.0;
        let ghost p = self.deep_view();
        let mut out: Vec<Component> = Vec::new();
        let mut i: usize = 0;
        while i < comps.len()
            invariant
                i <= comps.len(),
                comps == self.components.0,
                p == self.deep_view(),
                components_complete(p),
                out.deep_view() =~= components_of(p).take(i as int),
            decreases comps.len() - i,
        {
            let c = &comps[i];
            assert(p.components[i as int] == c.deep_view());
            let vendor = match &c.vendor {
                Some(v) => v.clone(),
                None => self.vendor.clone(),
            };
            let version = match &c.version {
                Some(v) => v.clone(),
                None => self.releases.latest_release().version.clone(),
            };
            let comp = Component {
                vendor,
                class: c.class.clone().unwrap(),
                group: c.group.clone().unwrap(),
                sub_group: c.sub_group.clone(),
                variant: c.variant.clone(),
                version,
                api_version: c.api_version.clone(),
                condition: c.condition.clone(),
                max_instances: c.max_instances,
                is_default: c.is_default,
                deprecated: c.deprecated,
                description: c.description.clone(),
                rte_addition: c.rte_addition.clone(),
                files: clone_file_refs(&c.files),
            };
            assert(comp.deep_view() == component_spec(c.deep_view(), p));
            push_item(&mut out, comp);
            i += 1;
        }
        out
    }
}

} // verus!
