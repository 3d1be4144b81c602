use vstd::prelude::*;

use crate::text::{bool_value, parse_bool, parse_uint, uint_value};
use crate::xml::{attr_of, child_in, XmlElem};

verus! {

/// Why an element could not be read.
#[derive(Debug)]
pub enum ParseError {
    /// The element has another name than the one that was to be read.
    WrongElement { expected: String, found: String },
    /// A required attribute is absent.
    MissingAttribute { attr: String, elem: String },
    /// An attribute holds a value that does not parse.
    InvalidAttribute { attr: String, elem: String, value: String },
    /// A required child element is absent.
    MissingChild { child: String, elem: String },
    /// A `releases` element holds no readable `release`.
    NoRelease,
    /// A `memory` element has neither an `id` nor a `name`.
    UnnamedMemory,
    /// A device has neither a `Dname` nor a `Dvariant`, nor inherits one.
    UnnamedDevice,
    /// An element other than `bundle` or `component` stands in `components`.
    UnexpectedComponent { name: String },
}

/// [`ParseError`] with its text taken as character sequences.
pub enum ParseErrorV {
    WrongElement { expected: Seq<char>, found: Seq<char> },
    MissingAttribute { attr: Seq<char>, elem: Seq<char> },
    InvalidAttribute { attr: Seq<char>, elem: Seq<char>, value: Seq<char> },
    MissingChild { child: Seq<char>, elem: Seq<char> },
    NoRelease,
    UnnamedMemory,
    UnnamedDevice,
    UnexpectedComponent { name: Seq<char> },
}

impl DeepView for ParseError {
    type V = ParseErrorV;

    open spec fn deep_view(&self) -> ParseErrorV {
        match self {
            ParseError::WrongElement { expected, found } => ParseErrorV::WrongElement {
                expected: expected@,
                found: found@,
            },
            ParseError::MissingAttribute { attr, elem } => ParseErrorV::MissingAttribute {
                attr: attr@,
                elem: elem@,
            },
            ParseError::InvalidAttribute { attr, elem, value } => ParseErrorV::InvalidAttribute {
                attr: attr@,
                elem: elem@,
                value: value@,
            },
            ParseError::MissingChild { child, elem } => ParseErrorV::MissingChild {
                child: child@,
                elem: elem@,
            },
            ParseError::NoRelease => ParseErrorV::NoRelease,
            ParseError::UnnamedMemory => ParseErrorV::UnnamedMemory,
            ParseError::UnnamedDevice => ParseErrorV::UnnamedDevice,
            ParseError::UnexpectedComponent { name } => ParseErrorV::UnexpectedComponent {
                name: name@,
            },
        }
    }
}

/// A result whose value and error are taken by their deep views.
pub open spec fn result_view<T: DeepView, E: DeepView>(r: Result<T, E>) -> Result<T::V, E::V> {
    match r {
        Ok(v) => Ok(v.deep_view()),
        Err(e) => Err(e.deep_view()),
    }
}

/// Appends `x` to `v`, which then deep-views as its old deep view with the
/// deep view of `x` appended.
pub fn push_item<T: DeepView>(v: &mut Vec<T>, x: T)
    ensures
        final(v)@ == old(v)@.push(x),
        final(v).deep_view() == old(v).deep_view().push(x.deep_view()),
{
    let ghost before = v.deep_view();
    v.push(x);
    assert(v.deep_view() =~= before.push(x.deep_view()));
}

/// Appends the items of `other` to `v`.
pub fn append_items<T: DeepView>(v: &mut Vec<T>, other: Vec<T>)
    ensures
        final(v)@ == old(v)@ + other@,
        final(v).deep_view() == old(v).deep_view() + other.deep_view(),
{
    let ghost before = v.deep_view();
    let ghost added = other.deep_view();
    let mut other = other;
    v.append(&mut other);
    assert(v.deep_view() =~= before + added);
}

/// The items of `v` in the opposite order.
pub fn reversed<T>(v: Vec<T>) -> (r: Vec<T>)
    ensures
        r@ == v@.reverse(),
{
    let ghost all = v@;
    let mut rest = v;
    let mut out: Vec<T> = Vec::new();
    while rest.len() > 0
        invariant
            rest.len() <= all.len(),
            rest@ == all.take(rest.len() as int),
            out@ == all.skip(rest.len() as int).reverse(),
        decreases rest.len(),
    {
        let ghost n = rest.len() as int;
        let ghost before = rest@;
        let x = rest.pop().unwrap();
        assert(x == before[n - 1]);
        out.push(x);
        assert(rest@ =~= all.take(n - 1));
        assert(out@ =~= all.skip(n - 1).reverse());
    }
    assert(all.skip(0) =~= all);
    out
}

/// The values of the `Ok` results among `rs`, in order.
pub open spec fn oks<T, E>(rs: Seq<Result<T, E>>) -> Seq<T>
    decreases rs.len(),
{
    if rs.len() == 0 {
        Seq::empty()
    } else {
        match rs.last() {
            Ok(v) => oks(rs.drop_last()).push(v),
            Err(_) => oks(rs.drop_last()),
        }
    }
}

/// The value of `r`, if it is `Ok`.
pub open spec fn ok_of<T, E>(r: Result<T, E>) -> Option<T> {
    match r {
        Ok(v) => Some(v),
        Err(_) => None,
    }
}

/// `Ok` where `e` is named `name`, else the error that says so.
pub open spec fn root_is(e: XmlElem, name: Seq<char>) -> Result<(), ParseErrorV> {
    if e.name@ == name {
        Ok(())
    } else {
        Err(ParseErrorV::WrongElement { expected: name, found: e.name@ })
    }
}

/// The attribute `attr` of `e`, or the error that it is missing from the
/// element kind `elem`.
pub open spec fn attr_req(e: XmlElem, attr: Seq<char>, elem: Seq<char>) -> Result<
    Seq<char>,
    ParseErrorV,
> {
    match attr_of(e, attr) {
        Some(v) => Ok(v),
        None => Err(ParseErrorV::MissingAttribute { attr, elem }),
    }
}

/// The attribute `attr` of `e` read as a boolean.
pub open spec fn attr_bool(e: XmlElem, attr: Seq<char>, elem: Seq<char>) -> Result<
    bool,
    ParseErrorV,
> {
    match attr_of(e, attr) {
        None => Err(ParseErrorV::MissingAttribute { attr, elem }),
        Some(v) => match bool_value(v) {
            Some(b) => Ok(b),
            None => Err(ParseErrorV::InvalidAttribute { attr, elem, value: v }),
        },
    }
}

/// The attribute `attr` of `e` read as a decimal `u8`.
pub open spec fn attr_u8(e: XmlElem, attr: Seq<char>, elem: Seq<char>) -> Result<u8, ParseErrorV> {
    match attr_of(e, attr) {
        None => Err(ParseErrorV::MissingAttribute { attr, elem }),
        Some(v) => match uint_value(v, 10, 255) {
            Some(n) => Ok(n as u8),
            None => Err(ParseErrorV::InvalidAttribute { attr, elem, value: v }),
        },
    }
}

/// A number written in hexadecimal after `0x`, else in decimal.
pub open spec fn hex_or_dec_value(s: Seq<char>) -> Option<nat> {
    if s.len() >= 2 && s[0] == '0' && s[1] == 'x' {
        uint_value(s.skip(2), 16, u64::MAX as nat)
    } else {
        uint_value(s, 10, u64::MAX as nat)
    }
}

/// The attribute `attr` of `e` read as a `u64`, in hexadecimal after `0x`.
pub open spec fn attr_hex(e: XmlElem, attr: Seq<char>, elem: Seq<char>) -> Result<
    u64,
    ParseErrorV,
> {
    match attr_of(e, attr) {
        None => Err(ParseErrorV::MissingAttribute { attr, elem }),
        Some(v) => match hex_or_dec_value(v) {
            Some(n) => Ok(n as u64),
            None => Err(ParseErrorV::InvalidAttribute { attr, elem, value: v }),
        },
    }
}

/// The text of the first child of `e` named `child`, or the error that the
/// element kind `elem` lacks it.
pub open spec fn text_req(e: XmlElem, child: Seq<char>, elem: Seq<char>) -> Result<
    Seq<char>,
    ParseErrorV,
> {
    match child_in(e.children@, child) {
        Some(c) => Ok(c.text@),
        None => Err(ParseErrorV::MissingChild { child, elem }),
    }
}

/// Checks that `e` is named `name`.
pub fn assert_root_name(e: &XmlElem, name: &str) -> (r: Result<(), ParseError>)
    ensures
        result_view(r) == root_is(*e, name@),
{
    if e.name == String::from_str(name) {
        Ok(())
    } else {
        Err(ParseError::WrongElement { expected: String::from_str(name), found: e.name.clone() })
    }
}

/// The attribute `attr` of `e`, required by the element kind `elem`.
pub fn attr_map(e: &XmlElem, attr: &str, elem: &str) -> (r: Result<String, ParseError>)
    ensures
        result_view(r) == attr_req(*e, attr@, elem@),
{
    match e.attr(attr) {
        Some(v) => Ok(v.clone()),
        None => Err(
            ParseError::MissingAttribute { attr: String::from_str(attr), elem: String::from_str(elem) },
        ),
    }
}

/// The attribute `attr` of `e`, if present.
pub fn attr_opt(e: &XmlElem, attr: &str) -> (r: Option<String>)
    ensures
        r.deep_view() == attr_of(*e, attr@),
{
    match e.attr(attr) {
        Some(v) => Some(v.clone()),
        None => None,
    }
}

/// The attribute `attr` of `e` read as a boolean.
pub fn attr_parse_bool(e: &XmlElem, attr: &str, elem: &str) -> (r: Result<bool, ParseError>)
    ensures
        result_view(r) == attr_bool(*e, attr@, elem@),
{
    match e.attr(attr) {
        None => Err(
            ParseError::MissingAttribute { attr: String::from_str(attr), elem: String::from_str(elem) },
        ),
        Some(v) => match parse_bool(v.as_str()) {
            Some(b) => Ok(b),
            None => Err(
                ParseError::InvalidAttribute {
                    attr: String::from_str(attr),
                    elem: String::from_str(elem),
                    value: v.clone(),
                },
            ),
        },
    }
}

/// The attribute `attr` of `e` read as a decimal `u8`.
pub fn attr_parse_u8(e: &XmlElem, attr: &str, elem: &str) -> (r: Result<u8, ParseError>)
    ensures
        result_view(r) == attr_u8(*e, attr@, elem@),
{
    match e.attr(attr) {
        None => Err(
            ParseError::MissingAttribute { attr: String::from_str(attr), elem: String::from_str(elem) },
        ),
        Some(v) => match parse_uint(v.as_str(), 10, 255) {
            Some(n) => Ok(n as u8),
            None => Err(
                ParseError::InvalidAttribute {
                    attr: String::from_str(attr),
                    elem: String::from_str(elem),
                    value: v.clone(),
                },
            ),
        },
    }
}

/// Reads `s` as a `u64`: hexadecimal after a leading `0x`, else decimal.
pub fn parse_hex_or_dec(s: &str) -> (r: Option<u64>)
    ensures
        r matches Some(n) ==> hex_or_dec_value(s@) == Some(n as nat),
        r is None ==> hex_or_dec_value(s@) is None,
{
    let len = s.unicode_len();
    if len >= 2 && s.get_char(0) == '0' && s.get_char(1) == 'x' {
        let rest = s.substring_char(2, len);
        assert(rest@ =~= s@.skip(2));
        parse_uint(rest, 16, u64::MAX)
    } else {
        parse_uint(s, 10, u64::MAX)
    }
}

/// The attribute `attr` of `e` read as a `u64`, in hexadecimal after `0x`.
pub fn attr_parse_hex(e: &XmlElem, attr: &str, elem: &str) -> (r: Result<u64, ParseError>)
    ensures
        result_view(r) == attr_hex(*e, attr@, elem@),
{
    match e.attr(attr) {
        None => Err(
            ParseError::MissingAttribute { attr: String::from_str(attr), elem: String::from_str(elem) },
        ),
        Some(v) => match parse_hex_or_dec(v.as_str()) {
            Some(n) => Ok(n),
            None => Err(
                ParseError::InvalidAttribute {
                    attr: String::from_str(attr),
                    elem: String::from_str(elem),
                    value: v.clone(),
                },
            ),
        },
    }
}

/// The text of the first child of `e` named `child`, required by the
/// element kind `elem`.
pub fn child_text(e: &XmlElem, child: &str, elem: &str) -> (r: Result<String, ParseError>)
    ensures
        result_view(r) == text_req(*e, child@, elem@),
{
    match e.child(child) {
        Some(c) => Ok(c.text.clone()),
        None => Err(
            ParseError::MissingChild { child: String::from_str(child), elem: String::from_str(elem) },
        ),
    }
}

} // verus!
