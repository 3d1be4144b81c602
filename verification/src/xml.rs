use vstd::prelude::*;

verus! {

/// An XML element as read from a document: its local name, the namespace
/// that its prefix resolves to, its attributes, the concatenation of its
/// direct text nodes and its child elements, in document order.
pub struct XmlElem {
    pub name: String,
    pub ns: Option<String>,
    pub attrs: Vec<(String, String)>,
    pub text: String,
    pub children: Vec<XmlElem>,
}

/// The value of the first attribute named `key`.
pub open spec fn attr_in(attrs: Seq<(String, String)>, key: Seq<char>) -> Option<Seq<char>>
    decreases attrs.len(),
{
    if attrs.len() == 0 {
        None
    } else if attrs[0].0@ == key {
        Some(attrs[0].1@)
    } else {
        attr_in(attrs.drop_first(), key)
    }
}

/// The value of the attribute `key` of `e`.
pub open spec fn attr_of(e: XmlElem, key: Seq<char>) -> Option<Seq<char>> {
    attr_in(e.attrs@, key)
}

/// The first of `children` whose name is `name`.
pub open spec fn child_in(children: Seq<XmlElem>, name: Seq<char>) -> Option<XmlElem>
    decreases children.len(),
{
    if children.len() == 0 {
        None
    } else if children[0].name@ == name {
        Some(children[0])
    } else {
        child_in(children.drop_first(), name)
    }
}

/// The first of `children` whose name is `name` and whose namespace is `ns`.
pub open spec fn ns_child_in(children: Seq<XmlElem>, name: Seq<char>, ns: Seq<char>) -> Option<
    XmlElem,
>
    decreases children.len(),
{
    if children.len() == 0 {
        None
    } else if children[0].name@ == name && children[0].ns.deep_view() == Some(ns) {
        Some(children[0])
    } else {
        ns_child_in(children.drop_first(), name, ns)
    }
}

/// The element tree that `minidom` reads from the text of a document, or
/// `None` where it rejects the text.
pub uninterp spec fn xml_document(text: Seq<char>) -> Option<XmlElem>;

/// Parses `text` with `minidom` (`Element::from_str`) and copies the tree
/// that it builds into an [`XmlElem`]. The contract claims only that the
/// outcome depends on the text alone; what `minidom` accepts, and the tree
/// it builds, are not stated. On failure the error is `minidom`'s message.
#[verifier::external_body]
pub(crate) fn parse_xml(text: &str) -> (r: Result<XmlElem, String>)
    ensures
        r is Ok <==> xml_document(text@) is Some,
        r matches Ok(e) ==> xml_document(text@) == Some(e),
{
    match text.parse::<minidom::Element>() {
        Ok(root) => Ok(element_tree(&root)),
        Err(err) => Err(format!("{}", err)),
    }
}

#[verifier::external_type_specification]
#[verifier::external_body]
pub struct ExElement(minidom::Element);

/// Copies a `minidom` element, element for element, into an [`XmlElem`]:
/// `name()`, `ns()`, `attrs()`, `text()` and `children()`. Nothing is
/// claimed of the copy; [`parse_xml`] is the only caller.
#[verifier::external_body]
fn element_tree(e: &minidom::Element) -> XmlElem {
    XmlElem {
        name: e.name().to_string(),
        ns: e.ns(),
        attrs: e.attrs().map(|(k, v)| (k.to_string(), v.to_string())).collect(),
        text: e.text(),
        children: e.children().map(element_tree).collect(),
    }
}

/// Whether `a` and `b` hold the same characters.
pub fn str_eq(a: &str, b: &str) -> (r: bool)
    ensures
        r == (a@ == b@),
{
    String::from_str(a) == String::from_str(b)
}

impl XmlElem {
    /// The value of the attribute `key`, if the element has it.
    pub fn attr(&self, key: &str) -> (r: Option<&String>)
        ensures
            r matches Some(v) ==> attr_of(*self, key@) == Some(v@),
            r is None ==> attr_of(*self, key@) is None,
    {
        let wanted = String::from_str(key);
        let mut i: usize = 0;
        assert(self.attrs@.skip(0) =~= self.attrs@);
        while i < self.attrs.len()
            invariant
                i <= self.attrs.len(),
                wanted@ == key@,
                attr_in(self.attrs@, key@) == attr_in(self.attrs@.skip(i as int), key@),
            decreases self.attrs.len() - i,
        {
            assert(self.attrs@.skip(i as int).drop_first() =~= self.attrs@.skip(i + 1));
            assert(self.attrs@.skip(i as int)[0] == self.attrs@[i as int]);
            if self.attrs[i].0 == wanted {
                return Some(&self.attrs[i].1);
            }
            i += 1;
        }
        None
    }

    /// The first child element named `name`, whatever its namespace.
    pub fn child(&self, name: &str) -> (r: Option<&XmlElem>)
        ensures
            r matches Some(c) ==> child_in(self.children@, name@) == Some(*c),
            r is None ==> child_in(self.children@, name@) is None,
    {
        let wanted = String::from_str(name);
        let mut i: usize = 0;
        assert(self.children@.skip(0) =~= self.children@);
        while i < self.children.len()
            invariant
                i <= self.children.len(),
                wanted@ == name@,
                child_in(self.children@, name@) == child_in(self.children@.skip(i as int), name@),
            decreases self.children.len() - i,
        {
            assert(self.children@.skip(i as int).drop_first() =~= self.children@.skip(i + 1));
            assert(self.children@.skip(i as int)[0] == self.children@[i as int]);
            if self.children[i].name == wanted {
                return Some(&self.children[i]);
            }
            i += 1;
        }
        None
    }

    /// The first child element named `name` whose namespace is `ns`.
    pub fn child_in_ns(&self, name: &str, ns: &str) -> (r: Option<&XmlElem>)
        ensures
            r matches Some(c) ==> ns_child_in(self.children@, name@, ns@) == Some(*c),
            r is None ==> ns_child_in(self.children@, name@, ns@) is None,
    {
        let wanted = String::from_str(name);
        let wanted_ns = String::from_str(ns);
        let mut i: usize = 0;
        assert(self.children@.skip(0) =~= self.children@);
        while i < self.children.len()
            invariant
                i <= self.children.len(),
                wanted@ == name@,
                wanted_ns@ == ns@,
                ns_child_in(self.children@, name@, ns@) == ns_child_in(
                    self.children@.skip(i as int),
                    name@,
                    ns@,
                ),
            decreases self.children.len() - i,
        {
            assert(self.children@.skip(i as int).drop_first() =~= self.children@.skip(i + 1));
            assert(self.children@.skip(i as int)[0] == self.children@[i as int]);
            let c = &self.children[i];
            let in_ns = match &c.ns {
                Some(n) => *n == wanted_ns,
                None => false,
            };
            if c.name == wanted && in_ns {
                return Some(c);
            }
            i += 1;
        }
        None
    }
}

} // verus!
