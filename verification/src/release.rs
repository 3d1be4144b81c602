use vstd::prelude::*;

use crate::parse::{
    assert_root_name, attr_map, attr_req, oks, push_item, result_view, root_is, ParseError,
    ParseErrorV,
};
use crate::xml::XmlElem;

verus! {

/// A release of a pack: its version and its notes.
#[derive(Debug)]
pub struct Release {
    pub version: String,
    pub text: String,
}

/// [`Release`] with its text taken as character sequences.
pub struct ReleaseV {
    pub version: Seq<char>,
    pub text: Seq<char>,
}

impl DeepView for Release {
    type V = ReleaseV;

    open spec fn deep_view(&self) -> ReleaseV {
        ReleaseV { version: self.version@, text: self.text@ }
    }
}

/// What a `release` element reads as.
pub open spec fn release_spec(e: XmlElem) -> Result<ReleaseV, ParseErrorV> {
    match root_is(e, "release"@) {
        Err(x) => Err(x),
        Ok(_) => match attr_req(e, "version"@, "release"@) {
            Err(x) => Err(x),
            Ok(version) => Ok(ReleaseV { version, text: e.text@ }),
        },
    }
}

impl Release {
    /// Reads a `release` element.
    pub fn from_elem(e: &XmlElem) -> (r: Result<Release, ParseError>)
        ensures
            result_view(r) == release_spec(*e),
    {
        assert_root_name(e, "release")?;
        Ok(Release { version: attr_map(e, "version", "release")?, text: e.text.clone() })
    }
}

/// The releases of a pack, newest first.
#[derive(Debug)]
pub struct Releases(pub Vec<Release>);

impl DeepView for Releases {
    type V = Seq<ReleaseV>;

    open spec fn deep_view(&self) -> Seq<ReleaseV> {
        self.0.deep_view()
    }
}

/// The readable `release` elements among `cs`, in order.
pub open spec fn releases_list_spec(cs: Seq<XmlElem>) -> Seq<ReleaseV> {
    oks(cs.map_values(|c: XmlElem| release_spec(c)))
}

/// What a `releases` element reads as: at least one readable release.
pub open spec fn releases_spec(e: XmlElem) -> Result<Seq<ReleaseV>, ParseErrorV> {
    match root_is(e, "releases"@) {
        Err(x) => Err(x),
        Ok(_) => if releases_list_spec(e.children@).len() == 0 {
            Err(ParseErrorV::NoRelease)
        } else {
            Ok(releases_list_spec(e.children@))
        },
    }
}

impl Releases {
    /// No releases.
    pub fn new() -> (r: Releases)
        ensures
            r.deep_view() == Seq::<ReleaseV>::empty(),
    {
        let v: Vec<Release> = Vec::new();
        assert(v.deep_view() =~= Seq::<ReleaseV>::empty());
        Releases(v)
    }

    /// The release listed first, which is the latest.
    pub fn latest_release(&self) -> (r: &Release)
        requires
            self.0.len() > 0,
        ensures
            *r == self.0@[0],
    {
        &self.0[0]
    }

    /// Reads a `releases` element, keeping the releases that read.
    pub fn from_elem(e: &XmlElem) -> (r: Result<Releases, ParseError>)
        ensures
            result_view(r) == releases_spec(*e),
    {
        assert_root_name(e, "releases")?;
        let mut out: Vec<Release> = Vec::new();
        let mut i: usize = 0;
        let ghost f = |c: XmlElem| release_spec(c);
        while i < e.children.len()
            invariant
                i <= e.children.len(),
                f == (|c: XmlElem| release_spec(c)),
                out.deep_view() == oks(e.children@.take(i as int).map_values(f)),
            decreases e.children.len() - i,
        {
            assert(e.children@.take(i + 1).map_values(f).drop_last() =~= e.children@.take(
                i as int,
            ).map_values(f));
            assert(e.children@.take(i + 1).map_values(f).last() == f(e.children@[i as int]));
            match Release::from_elem(&e.children[i]) {
                Ok(c) => push_item(&mut out, c),
                Err(_) => {},
            }
            i += 1;
        }
        assert(e.children@.take(e.children.len() as int) =~= e.children@);
        if out.len() == 0 {
            Err(ParseError::NoRelease)
        } else {
            Ok(Releases(out))
        }
    }
}

} // verus!
