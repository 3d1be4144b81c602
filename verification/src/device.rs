use vstd::prelude::*;

use crate::parse::{
    append_items, attr_bool, attr_hex, attr_map, attr_parse_bool, attr_parse_hex, attr_req,
    push_item, result_view, reversed, ParseError, ParseErrorV,
};
use crate::strmap::{keys_distinct, lemma_pairs_map_dom, pairs_map, StrMap};
use crate::text::{contains_char, contains_str, has_substring};
use crate::xml::{attr_of, XmlElem};

verus! {

/// Whether a memory region may be read, written and executed.
#[derive(Debug, Clone, Copy, PartialEq, Eq)]
pub struct MemoryPermissions {
    pub read: bool,
    pub write: bool,
    pub execute: bool,
}

/// The permissions that an access string such as `rwx` grants: each of the
/// letters `r`, `w` and `x` that occurs in it; other letters count for
/// nothing.
pub open spec fn permissions_of(s: Seq<char>) -> MemoryPermissions {
    MemoryPermissions { read: s.contains('r'), write: s.contains('w'), execute: s.contains('x') }
}

impl MemoryPermissions {
    /// Reads an access string.
    pub fn from_str(input: &str) -> (r: MemoryPermissions)
        ensures
            r == permissions_of(input@),
    {
        MemoryPermissions {
            read: contains_char(input, 'r'),
            write: contains_char(input, 'w'),
            execute: contains_char(input, 'x'),
        }
    }
}

/// A memory region of a device.
#[derive(Debug, Clone, Copy, PartialEq, Eq)]
pub struct Memory {
    pub access: MemoryPermissions,
    pub start: u64,
    pub size: u64,
    pub startup: bool,
}

impl DeepView for Memory {
    type V = Memory;

    open spec fn deep_view(&self) -> Memory {
        *self
    }
}

/// Whether a `memory` element says how it may be accessed: by an `id`,
/// from which the access follows, or by an `access` attribute.
pub open spec fn memory_readable(e: XmlElem) -> bool {
    attr_of(e, "id"@) is Some || attr_of(e, "access"@) is Some
}

/// The access that a `memory` element grants. An `id` that holds `ROM`
/// grants reading and executing, one that holds `RAM` reading and writing,
/// any other none; without an `id`, the `access` attribute decides.
pub open spec fn memory_access(e: XmlElem) -> MemoryPermissions {
    match attr_of(e, "id"@) {
        Some(id) => if has_substring(id, "ROM"@) {
            permissions_of("rx"@)
        } else if has_substring(id, "RAM"@) {
            permissions_of("rw"@)
        } else {
            permissions_of(""@)
        },
        None => permissions_of(attr_of(e, "access"@)->Some_0),
    }
}

/// What a `memory` element reads as: its name, from `id` or else `name`,
/// and the region.
pub open spec fn mem_elem_spec(e: XmlElem) -> Result<(Seq<char>, Memory), ParseErrorV> {
    let name = match attr_of(e, "id"@) {
        Some(id) => Some(id),
        None => attr_of(e, "name"@),
    };
    match name {
        None => Err(ParseErrorV::UnnamedMemory),
        Some(name) => match attr_hex(e, "start"@, "memory"@) {
            Err(x) => Err(x),
            Ok(start) => match attr_hex(e, "size"@, "memory"@) {
                Err(x) => Err(x),
                Ok(size) => Ok(
                    (
                        name,
                        Memory {
                            access: memory_access(e),
                            start,
                            size,
                            startup: match attr_bool(e, "startup"@, "memory"@) {
                                Ok(b) => b,
                                Err(_) => false,
                            },
                        },
                    ),
                ),
            },
        },
    }
}

/// A named memory region, as a `memory` element declares it.
#[derive(Debug)]
pub struct MemElem(pub String, pub Memory);

impl DeepView for MemElem {
    type V = (Seq<char>, Memory);

    open spec fn deep_view(&self) -> (Seq<char>, Memory) {
        (self.0@, self.1)
    }
}

impl MemElem {
    /// Reads a `memory` element.
    pub fn from_elem(e: &XmlElem) -> (r: Result<MemElem, ParseError>)
        requires
            memory_readable(*e),
        ensures
            result_view(r) == mem_elem_spec(*e),
    {
        let access = match e.attr("id") {
            Some(id) => {
                let kind = if contains_str(id.as_str(), "ROM") {
                    "rx"
                } else if contains_str(id.as_str(), "RAM") {
                    "rw"
                } else {
                    ""
                };
                MemoryPermissions::from_str(kind)
            },
            None => match e.attr("access") {
                Some(a) => MemoryPermissions::from_str(a.as_str()),
                None => {
                    assert(false);
                    MemoryPermissions { read: false, write: false, execute: false }
                },
            },
        };
        let name = match e.attr("id") {
            Some(id) => id.clone(),
            None => match e.attr("name") {
                Some(n) => n.clone(),
                None => {
                    return Err(ParseError::UnnamedMemory);
                },
            },
        };
        let start = attr_parse_hex(e, "start", "memory")?;
        let size = attr_parse_hex(e, "size", "memory")?;
        let startup = match attr_parse_bool(e, "startup", "memory") {
            Ok(b) => b,
            Err(_) => false,
        };
        Ok(MemElem(name, Memory { access, start, size, startup }))
    }
}

/// A flash programming algorithm of a device.
#[derive(Debug)]
pub struct Algorithm {
    pub file_name: String,
    pub start: u64,
    pub size: u64,
    pub default: bool,
}

/// [`Algorithm`] with its text taken as a character sequence.
pub struct AlgorithmV {
    pub file_name: Seq<char>,
    pub start: u64,
    pub size: u64,
    pub default: bool,
}

impl DeepView for Algorithm {
    type V = AlgorithmV;

    open spec fn deep_view(&self) -> AlgorithmV {
        AlgorithmV {
            file_name: self.file_name@,
            start: self.start,
            size: self.size,
            default: self.default,
        }
    }
}

impl Clone for Algorithm {
    fn clone(&self) -> (r: Algorithm)
        ensures
            r.deep_view() == self.deep_view(),
    {
        Algorithm {
            file_name: self.file_name.clone(),
            start: self.start,
            size: self.size,
            default: self.default,
        }
    }
}

/// What an `algorithm` element reads as.
pub open spec fn algorithm_spec(e: XmlElem) -> Result<AlgorithmV, ParseErrorV> {
    match attr_req(e, "name"@, "algorithm"@) {
        Err(x) => Err(x),
        Ok(file_name) => match attr_hex(e, "start"@, "algorithm"@) {
            Err(x) => Err(x),
            Ok(start) => match attr_hex(e, "size"@, "algorithm"@) {
                Err(x) => Err(x),
                Ok(size) => Ok(
                    AlgorithmV {
                        file_name,
                        start,
                        size,
                        default: match attr_bool(e, "default"@, "algorithm"@) {
                            Ok(b) => b,
                            Err(_) => false,
                        },
                    },
                ),
            },
        },
    }
}

impl Algorithm {
    /// Reads an `algorithm` element.
    pub fn from_elem(e: &XmlElem) -> (r: Result<Algorithm, ParseError>)
        ensures
            result_view(r) == algorithm_spec(*e),
    {
        let file_name = attr_map(e, "name", "algorithm")?;
        let start = attr_parse_hex(e, "start", "algorithm")?;
        let size = attr_parse_hex(e, "size", "algorithm")?;
        let default = match attr_parse_bool(e, "default", "algorithm") {
            Ok(b) => b,
            Err(_) => false,
        };
        Ok(Algorithm { file_name, start, size, default })
    }
}

/// A copy of `algs`, element by element.
pub fn clone_algorithms(algs: &Vec<Algorithm>) -> (r: Vec<Algorithm>)
    ensures
        r.deep_view() == algs.deep_view(),
{
    let mut out: Vec<Algorithm> = Vec::new();
    let mut i: usize = 0;
    while i < algs.len()
        invariant
            i <= algs.len(),
            out.deep_view() =~= algs.deep_view().take(i as int),
        decreases algs.len() - i,
    {
        let a = algs[i].clone();
        push_item(&mut out, a);
        assert(algs.deep_view().take(i + 1) =~= algs.deep_view().take(i as int).push(a.deep_view()));
        i += 1;
    }
    out
}

/// The memories of a device, by name.
pub type Memories = StrMap<Memory>;

/// A copy of `m`.
pub fn clone_memories(m: &Memories) -> (r: Memories)
    ensures
        r.deep_view() == m.deep_view(),
{
    let entries = m.entries();
    let mut out: Memories = StrMap::new();
    let mut i: usize = 0;
    while i < entries.len()
        invariant
            i <= entries.len(),
            m.deep_view() == pairs_map(entries@),
            out.deep_view() == pairs_map(entries@.take(i as int)),
        decreases entries.len() - i,
    {
        assert(entries@.take(i + 1).drop_last() =~= entries@.take(i as int));
        out.insert(entries[i].0.clone(), entries[i].1);
        i += 1;
    }
    assert(entries@.take(entries.len() as int) =~= entries@);
    out
}

/// `lhs` with the memories of `rhs` whose names it does not have.
pub fn merge_memories(lhs: Memories, rhs: &Memories) -> (r: Memories)
    ensures
        r.deep_view() == rhs.deep_view().union_prefer_right(lhs.deep_view()),
{
    let entries = rhs.entries();
    let ghost base = lhs.deep_view();
    let mut out = lhs;
    let mut i: usize = 0;
    proof {
        lemma_pairs_map_dom(entries@);
    }
    while i < entries.len()
        invariant
            i <= entries.len(),
            keys_distinct(entries@),
            rhs.deep_view() == pairs_map(entries@),
            out.deep_view() == pairs_map(entries@.take(i as int)).union_prefer_right(base),
        decreases entries.len() - i,
    {
        let ghost before = pairs_map(entries@.take(i as int));
        let ghost k = entries@[i as int].0@;
        assert(entries@.take(i + 1).drop_last() =~= entries@.take(i as int));
        proof {
            lemma_pairs_map_dom(entries@.take(i as int));
            assert(!before.dom().contains(k)) by {
                if before.dom().contains(k) {
                    let j = choose|j: int|
                        0 <= j < entries@.take(i as int).len() && #[trigger] entries@.take(
                            i as int,
                        )[j].0@ == k;
                    assert(entries@[j].0@ == entries@[i as int].0@);
                }
            }
        }
        if !out.contains_key(&entries[i].0) {
            out.insert(entries[i].0.clone(), entries[i].1);
            assert(out.deep_view() =~= pairs_map(entries@.take(i + 1)).union_prefer_right(base));
        } else {
            assert(base.dom().contains(k));
            assert(out.deep_view() =~= pairs_map(entries@.take(i + 1)).union_prefer_right(base));
        }
        i += 1;
    }
    assert(entries@.take(entries.len() as int) =~= entries@);
    out
}

/// A device while its description is gathered: what its own element says,
/// before what it inherits is added.
#[derive(Debug)]
pub struct DeviceBuilder {
    pub name: Option<String>,
    pub algorithms: Vec<Algorithm>,
    pub memories: Memories,
}

/// [`DeviceBuilder`] with its text taken as character sequences and its
/// memories as a map.
pub struct DeviceBuilderV {
    pub name: Option<Seq<char>>,
    pub algorithms: Seq<AlgorithmV>,
    pub memories: Map<Seq<char>, Memory>,
}

impl DeepView for DeviceBuilder {
    type V = DeviceBuilderV;

    open spec fn deep_view(&self) -> DeviceBuilderV {
        DeviceBuilderV {
            name: self.name.deep_view(),
            algorithms: self.algorithms.deep_view(),
            memories: self.memories.deep_view(),
        }
    }
}

/// A device with everything that it inherits.
#[derive(Debug)]
pub struct Device {
    pub name: String,
    pub memories: Memories,
    pub algorithms: Vec<Algorithm>,
}

/// [`Device`] with its text taken as character sequences and its memories
/// as a map.
pub struct DeviceV {
    pub name: Seq<char>,
    pub memories: Map<Seq<char>, Memory>,
    pub algorithms: Seq<AlgorithmV>,
}

impl DeepView for Device {
    type V = DeviceV;

    open spec fn deep_view(&self) -> DeviceV {
        DeviceV {
            name: self.name@,
            memories: self.memories.deep_view(),
            algorithms: self.algorithms.deep_view(),
        }
    }
}

/// The builder that an element starts: named by its `Dname`, else its
/// `Dvariant`, with no memories and no algorithms.
pub open spec fn builder_spec(e: XmlElem) -> DeviceBuilderV {
    DeviceBuilderV {
        name: match attr_of(e, "Dname"@) {
            Some(n) => Some(n),
            None => attr_of(e, "Dvariant"@),
        },
        algorithms: Seq::empty(),
        memories: Map::empty(),
    }
}

/// `child` takes `parent`'s name where it has none, appends `parent`'s
/// algorithms to its own, and adds the memories of `parent` whose names it
/// does not have.
pub open spec fn add_parent_spec(child: DeviceBuilderV, parent: DeviceBuilderV) -> DeviceBuilderV {
    DeviceBuilderV {
        name: match child.name {
            Some(n) => Some(n),
            None => parent.name,
        },
        algorithms: child.algorithms + parent.algorithms,
        memories: parent.memories.union_prefer_right(child.memories),
    }
}

/// The device that a builder gives, where it has a name.
pub open spec fn build_spec(b: DeviceBuilderV) -> Result<DeviceV, ParseErrorV> {
    match b.name {
        Some(name) => Ok(DeviceV { name, memories: b.memories, algorithms: b.algorithms }),
        None => Err(ParseErrorV::UnnamedDevice),
    }
}

impl DeviceBuilder {
    /// Starts a builder from the attributes of `e`.
    pub fn from_elem(e: &XmlElem) -> (r: DeviceBuilder)
        ensures
            r.deep_view() == builder_spec(*e),
    {
        let name = match e.attr("Dname") {
            Some(n) => Some(n.clone()),
            None => match e.attr("Dvariant") {
                Some(v) => Some(v.clone()),
                None => None,
            },
        };
        let algorithms: Vec<Algorithm> = Vec::new();
        assert(algorithms.deep_view() =~= Seq::<AlgorithmV>::empty());
        DeviceBuilder { name, memories: StrMap::new(), algorithms }
    }

    /// The device, which needs a name.
    pub fn build(self) -> (r: Result<Device, ParseError>)
        ensures
            result_view(r) == build_spec(self.deep_view()),
    {
        match self.name {
            Some(name) => Ok(
                Device { name, memories: self.memories, algorithms: self.algorithms },
            ),
            None => Err(ParseError::UnnamedDevice),
        }
    }

    /// Adds what `parent` passes down to this builder.
    pub fn add_parent(self, parent: &DeviceBuilder) -> (r: DeviceBuilder)
        ensures
            r.deep_view() == add_parent_spec(self.deep_view(), parent.deep_view()),
    {
        let mut algorithms = self.algorithms;
        let mut inherited = clone_algorithms(&parent.algorithms);
        let ghost own = algorithms.deep_view();
        algorithms.append(&mut inherited);
        assert(algorithms.deep_view() =~= own + parent.algorithms.deep_view());
        let name = match self.name {
            Some(n) => Some(n),
            None => parent.name.clone(),
        };
        DeviceBuilder { name, algorithms, memories: merge_memories(self.memories, &parent.memories) }
    }

    /// Sets the memory that `mem` names.
    pub fn add_memory(&mut self, mem: MemElem) -> (r: &mut DeviceBuilder)
        ensures
            r.deep_view() == (DeviceBuilderV {
                memories: old(self).deep_view().memories.insert(mem.0@, mem.1),
                ..old(self).deep_view()
            }),
            *final(self) == *final(r),
    {
        let MemElem(name, m) = mem;
        self.memories.insert(name, m);
        self
    }

    /// Appends the algorithm `alg`.
    pub fn add_algorithm(&mut self, alg: Algorithm) -> (r: &mut DeviceBuilder)
        ensures
            r.deep_view() == (DeviceBuilderV {
                algorithms: old(self).deep_view().algorithms.push(alg.deep_view()),
                ..old(self).deep_view()
            }),
            *final(self) == *final(r),
    {
        push_item(&mut self.algorithms, alg);
        self
    }
}

/// Whether every `memory` element among `cs` says how it may be accessed.
pub open spec fn memories_readable(cs: Seq<XmlElem>) -> bool {
    forall|i: int| 0 <= i < cs.len() && #[trigger] cs[i].name@ == "memory"@ ==> memory_readable(cs[i])
}

/// What a child of a family, sub-family or device element adds to the
/// builder of its parent: a readable `memory` or `algorithm`.
pub open spec fn apply_child(b: DeviceBuilderV, c: XmlElem) -> DeviceBuilderV {
    if c.name@ == "memory"@ {
        match mem_elem_spec(c) {
            Ok((n, m)) => DeviceBuilderV { memories: b.memories.insert(n, m), ..b },
            Err(_) => b,
        }
    } else if c.name@ == "algorithm"@ {
        match algorithm_spec(c) {
            Ok(a) => DeviceBuilderV { algorithms: b.algorithms.push(a), ..b },
            Err(_) => b,
        }
    } else {
        b
    }
}

/// The builder of `e` once the children `cs` have been applied, in order.
pub open spec fn builder_after(e: XmlElem, cs: Seq<XmlElem>) -> DeviceBuilderV
    decreases cs.len(),
{
    if cs.len() == 0 {
        builder_spec(e)
    } else {
        apply_child(builder_after(e, cs.drop_last()), cs.last())
    }
}

/// The builders that the `variant` elements among `cs` start, in order.
pub open spec fn variants_spec(cs: Seq<XmlElem>) -> Seq<DeviceBuilderV>
    decreases cs.len(),
{
    if cs.len() == 0 {
        Seq::empty()
    } else if cs.last().name@ == "variant"@ {
        variants_spec(cs.drop_last()).push(builder_spec(cs.last()))
    } else {
        variants_spec(cs.drop_last())
    }
}

/// Each of `bs` with what `parent` passes down.
pub open spec fn with_parent(bs: Seq<DeviceBuilderV>, parent: DeviceBuilderV) -> Seq<
    DeviceBuilderV,
> {
    bs.map_values(|b: DeviceBuilderV| add_parent_spec(b, parent))
}

/// What a `device` element describes: its variants, each with what the
/// device passes down, or the device itself where it has no variant.
pub open spec fn parse_device_spec(e: XmlElem) -> Seq<DeviceBuilderV> {
    let device = builder_after(e, e.children@);
    let variants = variants_spec(e.children@);
    if variants.len() == 0 {
        seq![device]
    } else {
        with_parent(variants, device)
    }
}

/// Applies `c` to `b` as [`apply_child`] says.
fn apply_child_to(b: &mut DeviceBuilder, c: &XmlElem)
    requires
        c.name@ == "memory"@ ==> memory_readable(*c),
    ensures
        final(b).deep_view() == apply_child(old(b).deep_view(), *c),
{
    if c.name == String::from_str("memory") {
        match MemElem::from_elem(c) {
            Ok(m) => {
                b.add_memory(m);
            },
            Err(_) => {},
        }
    } else if c.name == String::from_str("algorithm") {
        proof {
            reveal_strlit("memory");
            reveal_strlit("algorithm");
            assert("memory"@.len() != "algorithm"@.len());
        }
        match Algorithm::from_elem(c) {
            Ok(a) => {
                b.add_algorithm(a);
            },
            Err(_) => {},
        }
    }
}

/// Gives each of `bs` what `parent` passes down.
fn add_parent_all(bs: Vec<DeviceBuilder>, parent: &DeviceBuilder) -> (r: Vec<DeviceBuilder>)
    ensures
        r.deep_view() == with_parent(bs.deep_view(), parent.deep_view()),
{
    let ghost f = |b: DeviceBuilderV| add_parent_spec(b, parent.deep_view());
    let ghost all = bs.deep_view();
    let mut rest = bs;
    let mut out: Vec<DeviceBuilder> = Vec::new();
    let mut rev: Vec<DeviceBuilder> = Vec::new();
    // Take the builders off the end, then put them back in order.
    while rest.len() > 0
        invariant
            rest.deep_view().len() + rev.deep_view().len() == all.len(),
            rest.deep_view() =~= all.take(rest.len() as int),
            forall|j: int|
                0 <= j < rev.len() ==> #[trigger] rev.deep_view()[j] == f(
                    all[all.len() - 1 - j],
                ),
            f == (|b: DeviceBuilderV| add_parent_spec(b, parent.deep_view())),
        decreases rest.len(),
    {
        let ghost n = rest.len();
        let ghost old_rest = rest@;
        assert(rest.deep_view()[n - 1] == all[n - 1]);
        let b = rest.pop().unwrap();
        assert(b == old_rest[n - 1]);
        assert(b.deep_view() == all[n - 1]);
        let ghost prev = rev.deep_view();
        push_item(&mut rev, b.add_parent(parent));
        assert(rest.deep_view() =~= all.take(rest.len() as int));
    }
    while rev.len() > 0
        invariant
            out.len() + rev.len() == all.len(),
            forall|j: int| 0 <= j < out.len() ==> #[trigger] out.deep_view()[j] == f(all[j]),
            forall|j: int|
                0 <= j < rev.len() ==> #[trigger] rev.deep_view()[j] == f(
                    all[all.len() - 1 - j],
                ),
            f == (|b: DeviceBuilderV| add_parent_spec(b, parent.deep_view())),
        decreases rev.len(),
    {
        let ghost n = rev.len();
        let ghost prev_rev = rev.deep_view();
        let ghost old_rev = rev@;
        let b = rev.pop().unwrap();
        assert(b == old_rev[n - 1]);
        assert(b.deep_view() == prev_rev[n - 1]);
        push_item(&mut out, b);
        assert forall|j: int| 0 <= j < rev.len() implies #[trigger] rev.deep_view()[j] == f(
            all[all.len() - 1 - j],
        ) by {
            assert(rev.deep_view()[j] == prev_rev[j]);
        }
    }
    assert(out.deep_view() =~= with_parent(all, parent.deep_view()));
    out
}

/// Reads a `device` element.
pub fn parse_device(e: &XmlElem) -> (r: Vec<DeviceBuilder>)
    requires
        memories_readable(e.children@),
    ensures
        r.deep_view() == parse_device_spec(*e),
{
    let mut device = DeviceBuilder::from_elem(e);
    let mut variants: Vec<DeviceBuilder> = Vec::new();
    let mut i: usize = 0;
    while i < e.children.len()
        invariant
            i <= e.children.len(),
            memories_readable(e.children@),
            device.deep_view() == builder_after(*e, e.children@.take(i as int)),
            variants.deep_view() == variants_spec(e.children@.take(i as int)),
        decreases e.children.len() - i,
    {
        let c = &e.children[i];
        assert(e.children@.take(i + 1).drop_last() =~= e.children@.take(i as int));
        assert(e.children@.take(i + 1).last() == e.children@[i as int]);
        if c.name == String::from_str("variant") {
            proof {
                reveal_strlit("variant");
                reveal_strlit("memory");
                reveal_strlit("algorithm");
                assert("variant"@.len() == 7 && "memory"@.len() == 6 && "algorithm"@.len() == 9);
            }
            push_item(&mut variants, DeviceBuilder::from_elem(c));
        } else {
            apply_child_to(&mut device, c);
        }
        i += 1;
    }
    assert(e.children@.take(e.children.len() as int) =~= e.children@);
    if variants.len() == 0 {
        let mut v: Vec<DeviceBuilder> = Vec::new();
        push_item(&mut v, device);
        assert(v.deep_view() =~= seq![device.deep_view()]);
        v
    } else {
        add_parent_all(variants, &device)
    }
}

/// Whether the `device` children of a sub-family, and the sub-family
/// itself, hold only readable `memory` elements.
pub open spec fn sub_family_readable(e: XmlElem) -> bool {
    &&& memories_readable(e.children@)
    &&& forall|i: int|
        0 <= i < e.children@.len() && #[trigger] e.children@[i].name@ == "device"@
            ==> memories_readable(e.children@[i].children@)
}

/// The builders of the `device` elements among `cs`, in order.
pub open spec fn sub_family_devices(cs: Seq<XmlElem>) -> Seq<DeviceBuilderV>
    decreases cs.len(),
{
    if cs.len() == 0 {
        Seq::empty()
    } else if cs.last().name@ == "device"@ {
        sub_family_devices(cs.drop_last()) + parse_device_spec(cs.last())
    } else {
        sub_family_devices(cs.drop_last())
    }
}

/// What a `subFamily` element describes: its devices, each with what the
/// sub-family passes down.
pub open spec fn parse_sub_family_spec(e: XmlElem) -> Seq<DeviceBuilderV> {
    with_parent(sub_family_devices(e.children@), builder_after(e, e.children@))
}

/// `with_parent` distributes over concatenation.
proof fn lemma_with_parent_add(a: Seq<DeviceBuilderV>, b: Seq<DeviceBuilderV>, p: DeviceBuilderV)
    ensures
        with_parent(a + b, p) == with_parent(a, p) + with_parent(b, p),
{
    assert(with_parent(a + b, p) =~= with_parent(a, p) + with_parent(b, p));
}

/// Reads a `subFamily` element.
pub fn parse_sub_family(e: &XmlElem) -> (r: Vec<DeviceBuilder>)
    requires
        sub_family_readable(*e),
    ensures
        r.deep_view() == parse_sub_family_spec(*e),
{
    let mut sub_family = DeviceBuilder::from_elem(e);
    let mut devices: Vec<DeviceBuilder> = Vec::new();
    let mut i: usize = 0;
    while i < e.children.len()
        invariant
            i <= e.children.len(),
            sub_family_readable(*e),
            sub_family.deep_view() == builder_after(*e, e.children@.take(i as int)),
            devices.deep_view() == sub_family_devices(e.children@.take(i as int)),
        decreases e.children.len() - i,
    {
        let c = &e.children[i];
        assert(e.children@.take(i + 1).drop_last() =~= e.children@.take(i as int));
        assert(e.children@.take(i + 1).last() == e.children@[i as int]);
        if c.name == String::from_str("device") {
            proof {
                reveal_strlit("device");
                reveal_strlit("memory");
                reveal_strlit("algorithm");
                assert("device"@.len() == 6 && "memory"@.len() == 6 && "algorithm"@.len() == 9);
                assert("device"@[0] != "memory"@[0]);
            }
            let found = parse_device(c);
            append_items(&mut devices, found);
        } else {
            apply_child_to(&mut sub_family, c);
        }
        i += 1;
    }
    assert(e.children@.take(e.children.len() as int) =~= e.children@);
    add_parent_all(devices, &sub_family)
}

/// Whether a family holds only readable `memory` elements, in itself, its
/// sub-families and its devices.
pub open spec fn family_readable(e: XmlElem) -> bool {
    &&& memories_readable(e.children@)
    &&& forall|i: int|
        0 <= i < e.children@.len() && #[trigger] e.children@[i].name@ == "subFamily"@
            ==> sub_family_readable(e.children@[i])
    &&& forall|i: int|
        0 <= i < e.children@.len() && #[trigger] e.children@[i].name@ == "device"@
            ==> memories_readable(e.children@[i].children@)
}

/// The builders of the `subFamily` and `device` elements among `cs`, in
/// order.
pub open spec fn family_builders(cs: Seq<XmlElem>) -> Seq<DeviceBuilderV>
    decreases cs.len(),
{
    if cs.len() == 0 {
        Seq::empty()
    } else if cs.last().name@ == "subFamily"@ {
        family_builders(cs.drop_last()) + parse_sub_family_spec(cs.last())
    } else if cs.last().name@ == "device"@ {
        family_builders(cs.drop_last()) + parse_device_spec(cs.last())
    } else {
        family_builders(cs.drop_last())
    }
}

/// The devices that `bs` give, or the first error among them.
pub open spec fn build_all(bs: Seq<DeviceBuilderV>) -> Result<Seq<DeviceV>, ParseErrorV>
    decreases bs.len(),
{
    if bs.len() == 0 {
        Ok(Seq::empty())
    } else {
        match build_all(bs.drop_last()) {
            Err(x) => Err(x),
            Ok(ds) => match build_spec(bs.last()) {
                Ok(d) => Ok(ds.push(d)),
                Err(x) => Err(x),
            },
        }
    }
}

/// What a family element describes: the devices of its sub-families and its
/// own devices, each with what the family passes down. Every one of them
/// must end up with a name.
pub open spec fn parse_family_spec(e: XmlElem) -> Result<Seq<DeviceV>, ParseErrorV> {
    build_all(with_parent(family_builders(e.children@), builder_after(e, e.children@)))
}

/// Builds each of `bs`, stopping at the first that has no name.
fn build_each(bs: Vec<DeviceBuilder>) -> (r: Result<Vec<Device>, ParseError>)
    ensures
        result_view(r) == build_all(bs.deep_view()),
{
    let ghost all = bs.deep_view();
    let n = bs.len();
    let mut rest = reversed(bs);
    let mut out: Vec<Device> = Vec::new();
    let mut i: usize = 0;
    assert(all.take(0) =~= Seq::<DeviceBuilderV>::empty());
    assert(out.deep_view() =~= Seq::<DeviceV>::empty());
    while i < n
        invariant
            n == all.len(),
            i <= n,
            rest.len() == n - i,
            forall|j: int| 0 <= j < rest.len() ==> #[trigger] rest@[j].deep_view() == all[n - 1 - j],
            build_all(all.take(i as int)) == Ok::<Seq<DeviceV>, ParseErrorV>(out.deep_view()),
            all == bs.deep_view(),
        decreases n - i,
    {
        let ghost before = rest@;
        let b = rest.pop().unwrap();
        assert(b == before[n - i - 1]);
        assert(b.deep_view() == all[i as int]);
        assert(all.take(i + 1).drop_last() =~= all.take(i as int));
        assert(all.take(i + 1).last() == all[i as int]);
        assert(forall|j: int| 0 <= j < rest.len() ==> rest@[j] == before[j]);
        match b.build() {
            Ok(d) => {
                push_item(&mut out, d);
            },
            Err(x) => {
                proof {
                    assert(build_spec(all[i as int]) == Err::<DeviceV, ParseErrorV>(x.deep_view()));
                    assert(build_all(all.take(i + 1)) == Err::<Seq<DeviceV>, ParseErrorV>(x.deep_view()));
                    lemma_build_all_err_stays(all, i as int + 1);
                    assert(build_all(all) == Err::<Seq<DeviceV>, ParseErrorV>(x.deep_view()));

                }
                return Err(x);
            },
        }
        i += 1;
    }
    assert(all.take(n as int) =~= all);
    Ok(out)
}

/// Once a prefix of `bs` fails to build, so do `bs`, with the same error.
proof fn lemma_build_all_err_stays(bs: Seq<DeviceBuilderV>, n: int)
    requires
        0 <= n <= bs.len(),
        build_all(bs.take(n)) is Err,
    ensures
        build_all(bs) == build_all(bs.take(n)),
    decreases bs.len(),
{
    if n < bs.len() {
        assert(bs.drop_last().take(n) =~= bs.take(n));
        lemma_build_all_err_stays(bs.drop_last(), n);
    } else {
        assert(bs.take(n) =~= bs);
    }
}

/// Reads a family element: the devices that it describes.
pub fn parse_family(e: &XmlElem) -> (r: Result<Vec<Device>, ParseError>)
    requires
        family_readable(*e),
    ensures
        result_view(r) == parse_family_spec(*e),
{
    let mut family = DeviceBuilder::from_elem(e);
    let mut all: Vec<DeviceBuilder> = Vec::new();
    let mut i: usize = 0;
    while i < e.children.len()
        invariant
            i <= e.children.len(),
            family_readable(*e),
            family.deep_view() == builder_after(*e, e.children@.take(i as int)),
            all.deep_view() == family_builders(e.children@.take(i as int)),
        decreases e.children.len() - i,
    {
        let c = &e.children[i];
        assert(e.children@.take(i + 1).drop_last() =~= e.children@.take(i as int));
        assert(e.children@.take(i + 1).last() == e.children@[i as int]);
        proof {
            reveal_strlit("subFamily");
            reveal_strlit("device");
            reveal_strlit("memory");
            reveal_strlit("algorithm");
            assert("subFamily"@.len() == 9 && "device"@.len() == 6 && "memory"@.len() == 6
                && "algorithm"@.len() == 9);
            assert("device"@[0] != "memory"@[0] && "subFamily"@[0] != "algorithm"@[0]);
        }
        if c.name == String::from_str("subFamily") {
            let found = parse_sub_family(c);
            append_items(&mut all, found);
        } else if c.name == String::from_str("device") {
            let found = parse_device(c);
            append_items(&mut all, found);
        } else {
            apply_child_to(&mut family, c);
        }
        i += 1;
    }
    assert(e.children@.take(e.children.len() as int) =~= e.children@);
    build_each(add_parent_all(all, &family))
}

/// `m` with each of `ds` set under its name, in order.
pub open spec fn insert_devices(m: Map<Seq<char>, DeviceV>, ds: Seq<DeviceV>) -> Map<
    Seq<char>,
    DeviceV,
>
    decreases ds.len(),
{
    if ds.len() == 0 {
        m
    } else {
        insert_devices(m, ds.drop_last()).insert(ds.last().name, ds.last())
    }
}

/// Whether every family under a `devices` element holds only readable
/// `memory` elements.
pub open spec fn devices_readable(e: XmlElem) -> bool {
    forall|i: int| 0 <= i < e.children@.len() ==> #[trigger] family_readable(e.children@[i])
}

/// The devices that the families `cs` describe, by name, a later device
/// replacing an earlier one of the same name; or the first error.
pub open spec fn devices_list_spec(cs: Seq<XmlElem>) -> Result<Map<Seq<char>, DeviceV>, ParseErrorV>
    decreases cs.len(),
{
    if cs.len() == 0 {
        Ok(Map::empty())
    } else {
        match devices_list_spec(cs.drop_last()) {
            Err(x) => Err(x),
            Ok(m) => match parse_family_spec(cs.last()) {
                Ok(ds) => Ok(insert_devices(m, ds)),
                Err(x) => Err(x),
            },
        }
    }
}

/// The devices of a pack, by name.
#[derive(Debug)]
pub struct Devices(pub StrMap<Device>);

impl DeepView for Devices {
    type V = Map<Seq<char>, DeviceV>;

    open spec fn deep_view(&self) -> Map<Seq<char>, DeviceV> {
        self.0.deep_view()
    }
}

/// Sets each of `ds` under its name in `m`, in order.
fn insert_all(m: &mut StrMap<Device>, ds: Vec<Device>)
    ensures
        final(m).deep_view() == insert_devices(old(m).deep_view(), ds.deep_view()),
{
    let ghost all = ds.deep_view();
    let ghost start = m.deep_view();
    let n = ds.len();
    let mut rest = reversed(ds);
    let mut i: usize = 0;
    while i < n
        invariant
            n == all.len(),
            i <= n,
            rest.len() == n - i,
            forall|j: int| 0 <= j < rest.len() ==> #[trigger] rest@[j].deep_view() == all[n - 1 - j],
            m.deep_view() == insert_devices(start, all.take(i as int)),
            all == ds.deep_view(),
            start == old(m).deep_view(),
        decreases n - i,
    {
        let ghost before = rest@;
        let d = rest.pop().unwrap();
        assert(d == before[n - i - 1]);
        assert(d.deep_view() == all[i as int]);
        assert(all.take(i + 1).drop_last() =~= all.take(i as int));
        assert(forall|j: int| 0 <= j < rest.len() ==> rest@[j] == before[j]);
        m.insert(d.name.clone(), d);
        i += 1;
    }
    assert(all.take(n as int) =~= all);
}

impl Devices {
    /// No devices.
    pub fn new() -> (r: Devices)
        ensures
            r.deep_view() == Map::<Seq<char>, DeviceV>::empty(),
    {
        Devices(StrMap::new())
    }

    /// Reads a `devices` element: every child is read as a family.
    pub fn from_elem(e: &XmlElem) -> (r: Result<Devices, ParseError>)
        requires
            devices_readable(*e),
        ensures
            result_view(r) == devices_list_spec(e.children@),
    {
        let mut map: StrMap<Device> = StrMap::new();
        let mut i: usize = 0;
        while i < e.children.len()
            invariant
                i <= e.children.len(),
                devices_readable(*e),
                devices_list_spec(e.children@.take(i as int)) == Ok::<
                    Map<Seq<char>, DeviceV>,
                    ParseErrorV,
                >(map.deep_view()),
            decreases e.children.len() - i,
        {
            assert(e.children@.take(i + 1).drop_last() =~= e.children@.take(i as int));
            assert(e.children@.take(i + 1).last() == e.children@[i as int]);
            match parse_family(&e.children[i]) {
                Ok(ds) => insert_all(&mut map, ds),
                Err(x) => {
                    proof {
                        lemma_devices_err_stays(e.children@, i as int + 1);
                    }
                    return Err(x);
                },
            }
            i += 1;
        }
        assert(e.children@.take(e.children.len() as int) =~= e.children@);
        Ok(Devices(map))
    }
}

/// Once the families of a prefix of `cs` fail, so do all of `cs`, with the
/// same error.
proof fn lemma_devices_err_stays(cs: Seq<XmlElem>, n: int)
    requires
        0 <= n <= cs.len(),
        devices_list_spec(cs.take(n)) is Err,
    ensures
        devices_list_spec(cs) == devices_list_spec(cs.take(n)),
    decreases cs.len(),
{
    if n < cs.len() {
        assert(cs.drop_last().take(n) =~= cs.take(n));
        lemma_devices_err_stays(cs.drop_last(), n);
    } else {
        assert(cs.take(n) =~= cs);
    }
}

} // verus!
