use vstd::prelude::*;

use crate::component::FileRefV;
use crate::condition::ConditionV;
use crate::package::{components_complete, components_of, Component, ComponentV, Package, PackageV};
use crate::parse::push_item;
use crate::strmap::StrMap;

verus! {

/// A component, or a file of a component, that names a condition the pack
/// does not define.
#[derive(Debug)]
pub struct UnknownCondition {
    pub class: String,
    pub group: String,
    /// The path of the file, where a file names the condition.
    pub file: Option<String>,
    pub condition: String,
}

/// [`UnknownCondition`] with its text taken as character sequences.
pub struct UnknownConditionV {
    pub class: Seq<char>,
    pub group: Seq<char>,
    pub file: Option<Seq<char>>,
    pub condition: Seq<char>,
}

impl DeepView for UnknownCondition {
    type V = UnknownConditionV;

    open spec fn deep_view(&self) -> UnknownConditionV {
        UnknownConditionV {
            class: self.class@,
            group: self.group@,
            file: self.file.deep_view(),
            condition: self.condition@,
        }
    }
}

/// What a check of a pack finds.
#[derive(Debug)]
pub struct CheckReport {
    pub num_conditions: usize,
    pub num_devices: usize,
    pub num_components: usize,
    pub num_files: usize,
    /// Each id of a condition that an earlier condition already has, in the
    /// order of the conditions.
    pub duplicate_conditions: Vec<String>,
    /// The references to undefined conditions, component by component; a
    /// component's own reference comes before those of its files.
    pub unknown_conditions: Vec<UnknownCondition>,
}

/// Whether `p` defines a condition with the id `id`.
pub open spec fn knows_condition(p: PackageV, id: Seq<char>) -> bool {
    exists|i: int| 0 <= i < p.conditions.len() && #[trigger] p.conditions[i].id == id
}

/// The position of the last condition among `conds` of each id.
pub open spec fn condition_lookup_spec(conds: Seq<ConditionV>) -> Map<Seq<char>, usize>
    decreases conds.len(),
{
    if conds.len() == 0 {
        Map::empty()
    } else {
        condition_lookup_spec(conds.drop_last()).insert(conds.last().id, (conds.len() - 1) as usize)
    }
}

/// The ids of the lookup are those of the conditions.
proof fn lemma_lookup_dom(conds: Seq<ConditionV>, id: Seq<char>)
    ensures
        condition_lookup_spec(conds).dom().contains(id) <==> exists|i: int|
            0 <= i < conds.len() && #[trigger] conds[i].id == id,
    decreases conds.len(),
{
    if conds.len() > 0 {
        lemma_lookup_dom(conds.drop_last(), id);
        if exists|i: int| 0 <= i < conds.len() && #[trigger] conds[i].id == id {
            let i = choose|i: int| 0 <= i < conds.len() && #[trigger] conds[i].id == id;
            if i < conds.len() - 1 {
                assert(conds.drop_last()[i].id == id);
            }
        }
        if exists|i: int| 0 <= i < conds.len() - 1 && #[trigger] conds.drop_last()[i].id == id {
            let i = choose|i: int| 0 <= i < conds.len() - 1 && #[trigger] conds.drop_last()[i].id == id;
            assert(conds[i].id == id);
        }
    }
}

/// The references among `files` of component `c` to conditions that `p`
/// does not define.
pub open spec fn file_unknowns(files: Seq<FileRefV>, c: ComponentV, p: PackageV) -> Seq<
    UnknownConditionV,
>
    decreases files.len(),
{
    if files.len() == 0 {
        Seq::empty()
    } else {
        let rest = file_unknowns(files.drop_last(), c, p);
        match files.last().condition {
            Some(n) => if knows_condition(p, n) {
                rest
            } else {
                rest.push(
                    UnknownConditionV {
                        class: c.class,
                        group: c.group,
                        file: Some(files.last().path),
                        condition: n,
                    },
                )
            },
            None => rest,
        }
    }
}

/// The references of component `c` and its files to conditions that `p`
/// does not define.
pub open spec fn component_unknowns(c: ComponentV, p: PackageV) -> Seq<UnknownConditionV> {
    let own = match c.condition {
        Some(n) => if knows_condition(p, n) {
            Seq::empty()
        } else {
            seq![UnknownConditionV { class: c.class, group: c.group, file: None, condition: n }]
        },
        None => Seq::empty(),
    };
    own + file_unknowns(c.files, c, p)
}

/// The references of the components `cs` to conditions that `p` does not
/// define, in order.
pub open spec fn unknown_conditions(cs: Seq<ComponentV>, p: PackageV) -> Seq<UnknownConditionV>
    decreases cs.len(),
{
    if cs.len() == 0 {
        Seq::empty()
    } else {
        unknown_conditions(cs.drop_last(), p) + component_unknowns(cs.last(), p)
    }
}

/// The ids among `conds` that an earlier condition already has.
pub open spec fn duplicate_ids(conds: Seq<ConditionV>) -> Seq<Seq<char>>
    decreases conds.len(),
{
    if conds.len() == 0 {
        Seq::empty()
    } else {
        let rest = duplicate_ids(conds.drop_last());
        if exists|j: int| 0 <= j < conds.len() - 1 && #[trigger] conds[j].id == conds.last().id {
            rest.push(conds.last().id)
        } else {
            rest
        }
    }
}

/// How many files the components `cs` bring in all.
pub open spec fn file_count(cs: Seq<ComponentV>) -> nat
    decreases cs.len(),
{
    if cs.len() == 0 {
        0
    } else {
        file_count(cs.drop_last()) + cs.last().files.len()
    }
}

/// The checks that can be run on `p`: its components can all be completed,
/// and the count of their files fits a `usize`.
pub open spec fn checkable(p: PackageV) -> bool {
    &&& components_complete(p)
    &&& file_count(components_of(p)) <= usize::MAX
}

impl Package {
    /// The conditions by id: the position of the last condition of each id.
    pub fn make_condition_lookup(&self) -> (r: StrMap<usize>)
        ensures
            r.deep_view() == condition_lookup_spec(self.deep_view().conditions),
            forall|id: Seq<char>|
                r.deep_view().dom().contains(id) == knows_condition(self.deep_view(), id),
    {
        let conds = &self.conditions.0;
        let ghost all = self.deep_view().conditions;
        let mut map: StrMap<usize> = StrMap::new();
        let mut i: usize = 0;
        while i < conds.len()
            invariant
                i <= conds.len(),
                conds == self.conditions.0,
                all == self.deep_view().conditions,
                map.deep_view() == condition_lookup_spec(all.take(i as int)),
            decreases conds.len() - i,
        {
            assert(all.take(i + 1).drop_last() =~= all.take(i as int));
            assert(all.take(i + 1).last().id == conds@[i as int].id@);
            map.insert(conds[i].id.clone(), i);
            i += 1;
        }
        assert(all.take(conds.len() as int) =~= all);
        proof {
            assert forall|id: Seq<char>|
                map.deep_view().dom().contains(id) == knows_condition(self.deep_view(), id) by {
                lemma_lookup_dom(all, id);
            }
        }
        map
    }

    /// The ids of the conditions that an earlier condition already has.
    fn duplicate_condition_ids(&self) -> (r: Vec<String>)
        ensures
            r.deep_view() == duplicate_ids(self.deep_view().conditions),
    {
        let conds = &self.conditions.0;
        let ghost all = self.deep_view().conditions;
        let mut out: Vec<String> = Vec::new();
        let mut i: usize = 0;
        while i < conds.len()
            invariant
                i <= conds.len(),
                conds == self.conditions.0,
                all == self.deep_view().conditions,
                out.deep_view() == duplicate_ids(all.take(i as int)),
            decreases conds.len() - i,
        {
            let mut found = false;
            let mut j: usize = 0;
            while j < i
                invariant
                    j <= i < conds.len(),
                    conds == self.conditions.0,
                    all == self.deep_view().conditions,
                    found == exists|t: int| 0 <= t < j && #[trigger] all[t].id == all[i as int].id,
                decreases i - j,
            {
                assert(all[j as int].id == conds@[j as int].id@);
                assert(all[i as int].id == conds@[i as int].id@);
                if conds[j].id == conds[i].id {
                    found = true;
                }
                j += 1;
            }
            let ghost pre = all.take(i + 1);
            assert(pre.drop_last() =~= all.take(i as int));
            assert(pre.last() == all[i as int]);
            assert(found == exists|t: int| 0 <= t < pre.len() - 1 && #[trigger] pre[t].id == pre.last().id) by {
                if found {
                    let t = choose|t: int| 0 <= t < i && #[trigger] all[t].id == all[i as int].id;
                    assert(pre[t] == all[t]);
                }
                if exists|t: int| 0 <= t < pre.len() - 1 && #[trigger] pre[t].id == pre.last().id {
                    let t = choose|t: int| 0 <= t < pre.len() - 1 && #[trigger] pre[t].id == pre.last().id;
                    assert(all[t].id == all[i as int].id);
                }
            }
            if found {
                push_item(&mut out, conds[i].id.clone());
            }
            i += 1;
        }
        assert(all.take(conds.len() as int) =~= all);
        out
    }

    /// Appends the references of `c` and its files to undefined conditions.
    fn add_component_unknowns(
        &self,
        lookup: &StrMap<usize>,
        c: &Component,
        out: &mut Vec<UnknownCondition>,
    )
        requires
            forall|id: Seq<char>|
                lookup.deep_view().dom().contains(id) == knows_condition(self.deep_view(), id),
        ensures
            final(out).deep_view() == old(out).deep_view() + component_unknowns(
                c.deep_view(),
                self.deep_view(),
            ),
    {
        let ghost p = self.deep_view();
        let ghost start = out.deep_view();
        let ghost cv = c.deep_view();
        match &c.condition {
            Some(n) => {
                if !lookup.contains_key(n) {
                    push_item(
                        out,
                        UnknownCondition {
                            class: c.class.clone(),
                            group: c.group.clone(),
                            file: None,
                            condition: n.clone(),
                        },
                    );
                }
            },
            None => {},
        }
        let ghost own = out.deep_view();
        assert(own =~= start + match cv.condition {
            Some(n) => if knows_condition(p, n) {
                Seq::empty()
            } else {
                seq![UnknownConditionV { class: cv.class, group: cv.group, file: None, condition: n }]
            },
            None => Seq::empty(),
        });
        let mut i: usize = 0;
        while i < c.files.len()
            invariant
                i <= c.files.len(),
                p == self.deep_view(),
                forall|id: Seq<char>|
                    lookup.deep_view().dom().contains(id) == knows_condition(self.deep_view(), id),
                cv == c.deep_view(),
                out.deep_view() == own + file_unknowns(cv.files.take(i as int), cv, p),
            decreases c.files.len() - i,
        {
            let f = &c.files[i];
            assert(cv.files.take(i + 1).drop_last() =~= cv.files.take(i as int));
            assert(cv.files.take(i + 1).last() == f.deep_view());
            match &f.condition {
                Some(n) => {
                    if !lookup.contains_key(n) {
                        push_item(
                            out,
                            UnknownCondition {
                                class: c.class.clone(),
                                group: c.group.clone(),
                                file: Some(f.path.clone()),
                                condition: n.clone(),
                            },
                        );
                    }
                },
                None => {},
            }
            i += 1;
        }
        assert(cv.files.take(c.files.len() as int) =~= cv.files);
    }

    /// Checks the pack: counts its conditions, devices, components and
    /// files, and lists repeated condition ids and references to conditions
    /// that it does not define.
    pub fn check_report(&self) -> (r: CheckReport)
        requires
            checkable(self.deep_view()),
        ensures
            r.num_conditions == self.deep_view().conditions.len(),
            r.num_devices == self.deep_view().devices.len(),
            r.num_components == self.deep_view().components.len(),
            r.num_files == file_count(components_of(self.deep_view())),
            r.duplicate_conditions.deep_view() == duplicate_ids(self.deep_view().conditions),
            r.unknown_conditions.deep_view() == unknown_conditions(
                components_of(self.deep_view()),
                self.deep_view(),
            ),
    {
        let ghost p = self.deep_view();
        let duplicate_conditions = self.duplicate_condition_ids();
        let lookup = self.make_condition_lookup();
        let components = self.make_components();
        let ghost cs = components_of(p);
        let mut unknown: Vec<UnknownCondition> = Vec::new();
        let mut num_files: usize = 0;
        let mut i: usize = 0;
        assert(unknown.deep_view() =~= Seq::<UnknownConditionV>::empty());
        while i < components.len()
            invariant
                i <= components.len(),
                p == self.deep_view(),
                cs == components_of(p),
                components.deep_view() == cs,
                checkable(p),
                forall|id: Seq<char>|
                    lookup.deep_view().dom().contains(id) == knows_condition(self.deep_view(), id),
                num_files == file_count(cs.take(i as int)),
                unknown.deep_view() == unknown_conditions(cs.take(i as int), p),
            decreases components.len() - i,
        {
            let c = &components[i];
            assert(cs.take(i + 1).drop_last() =~= cs.take(i as int));
            assert(cs.take(i + 1).last() == c.deep_view());
            proof {
                lemma_file_count_prefix(cs, i as int + 1);
            }
            num_files = num_files + c.files.len();
            self.add_component_unknowns(&lookup, c, &mut unknown);
            i += 1;
        }
        assert(cs.take(components.len() as int) =~= cs);
        CheckReport {
            num_conditions: self.conditions.0.len(),
            num_devices: self.devices.0.len(),
            num_components: components.len(),
            num_files,
            duplicate_conditions,
            unknown_conditions: unknown,
        }
    }
}

/// The files of a prefix of `cs` are no more than those of all of `cs`.
proof fn lemma_file_count_prefix(cs: Seq<ComponentV>, n: int)
    requires
        0 <= n <= cs.len(),
    ensures
        file_count(cs.take(n)) <= file_count(cs),
    decreases cs.len(),
{
    if n < cs.len() {
        assert(cs.drop_last().take(n) =~= cs.take(n));
        lemma_file_count_prefix(cs.drop_last(), n);
    } else {
        assert(cs.take(n) =~= cs);
    }
}

} // verus!
