use vstd::prelude::*;

use crate::parse::{
    assert_root_name, attr_map, attr_opt, attr_req, oks, push_item, result_view, root_is,
    ParseError, ParseErrorV,
};
use crate::xml::{attr_of, XmlElem};

verus! {

/// The device attributes that an `accept`, `deny` or `require` entry of a
/// condition stands for.
#[derive(Debug)]
pub struct ConditionComponent {
    pub device_family: Option<String>,
    pub device_sub_family: Option<String>,
    pub device_variant: Option<String>,
    pub device_vendor: Option<String>,
    pub device_name: Option<String>,
}

/// [`ConditionComponent`] with its text taken as character sequences.
pub struct ConditionComponentV {
    pub device_family: Option<Seq<char>>,
    pub device_sub_family: Option<Seq<char>>,
    pub device_variant: Option<Seq<char>>,
    pub device_vendor: Option<Seq<char>>,
    pub device_name: Option<Seq<char>>,
}

impl DeepView for ConditionComponent {
    type V = ConditionComponentV;

    open spec fn deep_view(&self) -> ConditionComponentV {
        ConditionComponentV {
            device_family: self.device_family.deep_view(),
            device_sub_family: self.device_sub_family.deep_view(),
            device_variant: self.device_variant.deep_view(),
            device_vendor: self.device_vendor.deep_view(),
            device_name: self.device_name.deep_view(),
        }
    }
}

/// The device attributes of `e`.
pub open spec fn condition_component_spec(e: XmlElem) -> ConditionComponentV {
    ConditionComponentV {
        device_family: attr_of(e, "Dfamily"@),
        device_sub_family: attr_of(e, "Dsubfamily"@),
        device_variant: attr_of(e, "Dvariant"@),
        device_vendor: attr_of(e, "Dvendor"@),
        device_name: attr_of(e, "Dname"@),
    }
}

impl ConditionComponent {
    /// Reads the device attributes of `e`; this never fails.
    pub fn from_elem(e: &XmlElem) -> (r: ConditionComponent)
        ensures
            r.deep_view() == condition_component_spec(*e),
    {
        ConditionComponent {
            device_family: attr_opt(e, "Dfamily"),
            device_sub_family: attr_opt(e, "Dsubfamily"),
            device_variant: attr_opt(e, "Dvariant"),
            device_vendor: attr_opt(e, "Dvendor"),
            device_name: attr_opt(e, "Dname"),
        }
    }
}

/// A named condition under which components and files apply.
#[derive(Debug)]
pub struct Condition {
    pub id: String,
    pub accept: Vec<ConditionComponent>,
    pub deny: Vec<ConditionComponent>,
    pub require: Vec<ConditionComponent>,
}

/// [`Condition`] with its text taken as character sequences.
pub struct ConditionV {
    pub id: Seq<char>,
    pub accept: Seq<ConditionComponentV>,
    pub deny: Seq<ConditionComponentV>,
    pub require: Seq<ConditionComponentV>,
}

impl DeepView for Condition {
    type V = ConditionV;

    open spec fn deep_view(&self) -> ConditionV {
        ConditionV {
            id: self.id@,
            accept: self.accept.deep_view(),
            deny: self.deny.deep_view(),
            require: self.require.deep_view(),
        }
    }
}

/// How many of `cs` are named `name`.
pub open spec fn count_named(cs: Seq<XmlElem>, name: Seq<char>) -> nat
    decreases cs.len(),
{
    if cs.len() == 0 {
        0
    } else {
        count_named(cs.drop_last(), name) + if cs.last().name@ == name {
            1nat
        } else {
            0nat
        }
    }
}

/// What a `condition` element reads as. Each `accept`, `deny` and `require`
/// child adds one entry, read from the attributes of the `condition`
/// element itself.
pub open spec fn condition_spec(e: XmlElem) -> Result<ConditionV, ParseErrorV> {
    match root_is(e, "condition"@) {
        Err(x) => Err(x),
        Ok(_) => match attr_req(e, "id"@, "condition"@) {
            Err(x) => Err(x),
            Ok(id) => Ok(
                ConditionV {
                    id,
                    accept: Seq::new(
                        count_named(e.children@, "accept"@),
                        |i: int| condition_component_spec(e),
                    ),
                    deny: Seq::new(
                        count_named(e.children@, "deny"@),
                        |i: int| condition_component_spec(e),
                    ),
                    require: Seq::new(
                        count_named(e.children@, "require"@),
                        |i: int| condition_component_spec(e),
                    ),
                },
            ),
        },
    }
}

impl Condition {
    /// Reads a `condition` element.
    pub fn from_elem(e: &XmlElem) -> (r: Result<Condition, ParseError>)
        ensures
            result_view(r) == condition_spec(*e),
    {
        assert_root_name(e, "condition")?;
        let mut accept: Vec<ConditionComponent> = Vec::new();
        let mut deny: Vec<ConditionComponent> = Vec::new();
        let mut require: Vec<ConditionComponent> = Vec::new();
        let accept_name = String::from_str("accept");
        let deny_name = String::from_str("deny");
        let require_name = String::from_str("require");
        let ghost cc = condition_component_spec(*e);
        let mut i: usize = 0;
        while i < e.children.len()
            invariant
                i <= e.children.len(),
                cc == condition_component_spec(*e),
                accept_name@ == "accept"@,
                deny_name@ == "deny"@,
                require_name@ == "require"@,
                accept.deep_view() =~= Seq::new(
                    count_named(e.children@.take(i as int), "accept"@),
                    |j: int| cc,
                ),
                deny.deep_view() =~= Seq::new(
                    count_named(e.children@.take(i as int), "deny"@),
                    |j: int| cc,
                ),
                require.deep_view() =~= Seq::new(
                    count_named(e.children@.take(i as int), "require"@),
                    |j: int| cc,
                ),
            decreases e.children.len() - i,
        {
            assert(e.children@.take(i + 1).drop_last() =~= e.children@.take(i as int));
            proof {
                reveal_strlit("accept");
                reveal_strlit("deny");
                reveal_strlit("require");
                assert("accept"@.len() == 6 && "deny"@.len() == 4 && "require"@.len() == 7);
                assert("accept"@ != "deny"@ && "accept"@ != "require"@ && "deny"@ != "require"@);
                assert(e.children@.take(i + 1).last() == e.children@[i as int]);
            }
            let name = &e.children[i].name;
            if *name == accept_name {
                push_item(&mut accept, ConditionComponent::from_elem(e));
            } else if *name == deny_name {
                push_item(&mut deny, ConditionComponent::from_elem(e));
            } else if *name == require_name {
                push_item(&mut require, ConditionComponent::from_elem(e));
            }
            i += 1;
        }
        assert(e.children@.take(e.children.len() as int) =~= e.children@);
        let id = attr_map(e, "id", "condition")?;
        Ok(Condition { id, accept, deny, require })
    }
}

/// The readable `condition` elements among `cs`, in order.
pub open spec fn conditions_list_spec(cs: Seq<XmlElem>) -> Seq<ConditionV> {
    oks(cs.map_values(|c: XmlElem| condition_spec(c)))
}

/// The conditions of a pack.
#[derive(Debug)]
pub struct Conditions(pub Vec<Condition>);

impl DeepView for Conditions {
    type V = Seq<ConditionV>;

    open spec fn deep_view(&self) -> Seq<ConditionV> {
        self.0.deep_view()
    }
}

/// What a `conditions` element reads as.
pub open spec fn conditions_spec(e: XmlElem) -> Result<Seq<ConditionV>, ParseErrorV> {
    match root_is(e, "conditions"@) {
        Err(x) => Err(x),
        Ok(_) => Ok(conditions_list_spec(e.children@)),
    }
}

impl Conditions {
    /// No conditions.
    pub fn new() -> (r: Conditions)
        ensures
            r.deep_view() == Seq::<ConditionV>::empty(),
    {
        let v: Vec<Condition> = Vec::new();
        assert(v.deep_view() =~= Seq::<ConditionV>::empty());
        Conditions(v)
    }

    /// Reads a `conditions` element, keeping the conditions that read.
    pub fn from_elem(e: &XmlElem) -> (r: Result<Conditions, ParseError>)
        ensures
            result_view(r) == conditions_spec(*e),
    {
        assert_root_name(e, "conditions")?;
        let mut out: Vec<Condition> = Vec::new();
        let mut i: usize = 0;
        let ghost f = |c: XmlElem| condition_spec(c);
        while i < e.children.len()
            invariant
                i <= e.children.len(),
                f == (|c: XmlElem| condition_spec(c)),
                out.deep_view() == oks(e.children@.take(i as int).map_values(f)),
            decreases e.children.len() - i,
        {
            assert(e.children@.take(i + 1).map_values(f).drop_last() =~= e.children@.take(
                i as int,
            ).map_values(f));
            assert(e.children@.take(i + 1).map_values(f).last() == f(e.children@[i as int]));
            match Condition::from_elem(&e.children[i]) {
                Ok(c) => push_item(&mut out, c),
                Err(_) => {},
            }
            i += 1;
        }
        assert(e.children@.take(e.children.len() as int) =~= e.children@);
        Ok(Conditions(out))
    }
}

} // verus!
