//! The change aggregator: added-file records run through the path classifier
//! and the type mapping, and the qualifying component ids are grouped into one
//! type group per resolved type name, in first-seen order.
use crate::classify::{classify, spec_classify};
use crate::forcedotcom::{
    Members, Package, PackageModel, ToPackage, ToXML, TypeGroupModel, Types, spec_package_xml,
    spec_version_of,
};
use crate::ignorefile::{excluded_set, path_is_excluded, relative_path};
use vstd::prelude::*;

verus! {

/// The status a change record arrived with; only `Added` drives output.
#[derive(Clone, Copy, PartialEq, Eq, Structural, Debug)]
pub enum ChangeStatus {
    Added,
    Modified,
    Deleted,
    Renamed,
    Other,
}

/// One changed-file record of a revision diff.
#[derive(Debug)]
pub struct ChangeRecord {
    pub path: String,
    pub status: ChangeStatus,
}

/// First value mapped to `key`, searching the mapping in order.
pub open spec fn spec_lookup(mapping: Seq<(String, String)>, key: Seq<char>) -> Option<Seq<char>>
    decreases mapping.len(),
{
    if mapping.len() == 0 {
        None
    } else if mapping[0].0@ == key {
        Some(mapping[0].1@)
    } else {
        spec_lookup(mapping.drop_first(), key)
    }
}

/// Index of the first group named `t`, or `groups.len()` when there is none.
pub open spec fn spec_group_index(groups: Seq<TypeGroupModel>, t: Seq<char>) -> int
    decreases groups.len(),
{
    if groups.len() == 0 {
        0
    } else if groups[0].name == t {
        0
    } else {
        1 + spec_group_index(groups.drop_first(), t)
    }
}

pub proof fn lemma_group_index(groups: Seq<TypeGroupModel>, t: Seq<char>)
    ensures
        0 <= spec_group_index(groups, t) <= groups.len(),
        spec_group_index(groups, t) < groups.len() ==> groups[spec_group_index(groups, t)].name
            == t,
        forall|j: int| 0 <= j < spec_group_index(groups, t) ==> groups[j].name != t,
    decreases groups.len(),
{
    if groups.len() > 0 && groups[0].name != t {
        lemma_group_index(groups.drop_first(), t);
        assert forall|j: int| 0 <= j < spec_group_index(groups, t) implies groups[j].name != t by {
            if j > 0 {
                assert(groups.drop_first()[j - 1] == groups[j]);
            }
        }
    }
}

/// A member appended to the group of its type: the first group named `t`
/// grows by `m`, or a fresh group named `t` is appended when none exists.
pub open spec fn spec_add_member(groups: Seq<TypeGroupModel>, t: Seq<char>, m: Seq<char>) -> Seq<
    TypeGroupModel,
> {
    let i = spec_group_index(groups, t);
    if i < groups.len() {
        groups.update(i, TypeGroupModel { name: t, members: groups[i].members.push(m) })
    } else {
        groups.push(TypeGroupModel { name: t, members: seq![m] })
    }
}

/// The member one record contributes: its resolved type name and component
/// id, or `None` when the record's status is not `Added`, its path is
/// excluded or unclassifiable, its component id is empty, or its folder key
/// is absent from the mapping.
pub open spec fn spec_member_of(
    r: ChangeRecord,
    mapping: Seq<(String, String)>,
    excluded: bool,
) -> Option<(Seq<char>, Seq<char>)> {
    if r.status is Added && !excluded {
        match spec_classify(r.path@) {
            Some(fc) => {
                if fc.1.len() > 0 {
                    match spec_lookup(mapping, fc.0) {
                        Some(t) => Some((t, fc.1)),
                        None => None,
                    }
                } else {
                    None
                }
            },
            None => None,
        }
    } else {
        None
    }
}

/// One aggregation step: the record's member joins its group, or nothing
/// changes for a record that contributes none.
pub open spec fn spec_step(
    groups: Seq<TypeGroupModel>,
    r: ChangeRecord,
    mapping: Seq<(String, String)>,
    excluded: bool,
) -> Seq<TypeGroupModel> {
    match spec_member_of(r, mapping, excluded) {
        Some(tm) => spec_add_member(groups, tm.0, tm.1),
        None => groups,
    }
}

/// The grouped model of a whole record sequence, processed in input order,
/// with `excluded` the set of paths the path filter shuts out.
pub open spec fn spec_aggregate(
    records: Seq<ChangeRecord>,
    mapping: Seq<(String, String)>,
    excluded: Set<Seq<char>>,
) -> Seq<TypeGroupModel>
    decreases records.len(),
{
    if records.len() == 0 {
        Seq::empty()
    } else {
        spec_step(
            spec_aggregate(records.drop_last(), mapping, excluded),
            records.last(),
            mapping,
            excluded.contains(records.last().path@),
        )
    }
}

/// The models of a sequence of built groups.
pub open spec fn groups_view(ts: Seq<Types>) -> Seq<TypeGroupModel> {
    ts.map_values(|t: Types| t@)
}

/// No two groups carry the same name.
pub open spec fn distinct_names(groups: Seq<TypeGroupModel>) -> bool {
    forall|i: int, j: int| 0 <= i < j < groups.len() ==> groups[i].name != groups[j].name
}

pub proof fn lemma_add_member_distinct(groups: Seq<TypeGroupModel>, t: Seq<char>, m: Seq<char>)
    requires
        distinct_names(groups),
    ensures
        distinct_names(spec_add_member(groups, t, m)),
{
    lemma_group_index(groups, t);
}

/// Aggregation yields groups with pairwise distinct names.
pub proof fn lemma_aggregate_distinct(
    records: Seq<ChangeRecord>,
    mapping: Seq<(String, String)>,
    excluded: Set<Seq<char>>,
)
    ensures
        distinct_names(spec_aggregate(records, mapping, excluded)),
    decreases records.len(),
{
    if records.len() > 0 {
        lemma_aggregate_distinct(records.drop_last(), mapping, excluded);
        match spec_member_of(
            records.last(),
            mapping,
            excluded.contains(records.last().path@),
        ) {
            Some(tm) => {
                lemma_add_member_distinct(
                    spec_aggregate(records.drop_last(), mapping, excluded),
                    tm.0,
                    tm.1,
                );
            },
            None => {},
        }
    }
}

/// Looks `key` up in the mapping, front to back.
fn lookup(mapping: &Vec<(String, String)>, key: &String) -> (r: Option<String>)
    ensures
        match r {
            Some(t) => spec_lookup(mapping@, key@) == Some(t@),
            None => spec_lookup(mapping@, key@) is None,
        },
{
    proof {
        assert(mapping@.skip(0) =~= mapping@);
    }
    let mut i: usize = 0;
    while i < mapping.len()
        invariant
            i <= mapping@.len(),
            spec_lookup(mapping@, key@) == spec_lookup(mapping@.skip(i as int), key@),
        decreases mapping@.len() - i,
    {
        proof {
            assert(mapping@.skip(i as int)[0] == mapping@[i as int]);
            assert(mapping@.skip(i as int).drop_first() =~= mapping@.skip(i + 1 as int));
        }
        let pair = &mapping[i];
        if pair.0 == *key {
            return Some(pair.1.clone());
        }
        i = i + 1;
    }
    proof {
        assert(mapping@.skip(mapping@.len() as int) =~= Seq::<(String, String)>::empty());
    }
    None
}

/// Appends one member to the group of its type, creating the group at the
/// back when the name is new.
fn add_member(types: &mut Vec<Types>, t: &String, m: String)
    ensures
        groups_view(final(types)@) == spec_add_member(groups_view(old(types)@), t@, m@),
{
    let ghost groups0 = groups_view(old(types)@);
    let n = types.len();
    let mut i: usize = 0;
    while i < n
        invariant
            types@ == old(types)@,
            groups0 == groups_view(types@),
            n == types@.len(),
            i <= n,
            forall|j: int| 0 <= j < i ==> groups0[j].name != t@,
        decreases n - i,
    {
        if types[i].name == *t {
            proof {
                assert(groups0[i as int] == types@[i as int]@);
                lemma_group_index_is(groups0, t@, i as int);
            }
            let ghost before = types@[i as int];
            types[i].members.push(Members::from(m));
            proof {
                assert(types@[i as int]@.members =~= before@.members.push(m@));
                assert(types@[i as int]@ =~~= TypeGroupModel {
                    name: t@,
                    members: groups0[i as int].members.push(m@),
                });
                assert(groups_view(types@) =~~= spec_add_member(groups0, t@, m@));
            }
            return ;
        }
        proof {
            assert(groups0[i as int] == types@[i as int]@);
        }
        i = i + 1;
    }
    proof {
        lemma_group_index_none(groups0, t@);
    }
    let mut g = Types::new(t.as_str());
    g.members.push(Members::from(m));
    types.push(g);
    proof {
        assert(g@.members =~= seq![m@]);
        assert(g@ =~~= TypeGroupModel { name: t@, members: seq![m@] });
        assert(groups_view(types@) =~~= spec_add_member(groups0, t@, m@));
    }
}

pub proof fn lemma_group_index_is(groups: Seq<TypeGroupModel>, t: Seq<char>, k: int)
    requires
        0 <= k < groups.len(),
        groups[k].name == t,
        forall|j: int| 0 <= j < k ==> groups[j].name != t,
    ensures
        spec_group_index(groups, t) == k,
    decreases groups.len(),
{
    if groups[0].name != t {
        assert(forall|j: int| 0 <= j < k - 1 ==> groups.drop_first()[j] == groups[j + 1]);
        lemma_group_index_is(groups.drop_first(), t, k - 1);
    }
}

pub proof fn lemma_group_index_none(groups: Seq<TypeGroupModel>, t: Seq<char>)
    requires
        forall|j: int| 0 <= j < groups.len() ==> groups[j].name != t,
    ensures
        spec_group_index(groups, t) == groups.len(),
    decreases groups.len(),
{
    if groups.len() > 0 {
        assert(forall|j: int|
            0 <= j < groups.drop_first().len() ==> groups.drop_first()[j] == groups[j + 1]);
        lemma_group_index_none(groups.drop_first(), t);
    }
}

/// Runs one record through the classifier, the mapping and the grouping step.
fn apply_record(
    types: &mut Vec<Types>,
    record: &ChangeRecord,
    mapping: &Vec<(String, String)>,
    excluded: bool,
)
    ensures
        groups_view(final(types)@) == spec_step(groups_view(old(types)@), *record, mapping@, excluded),
{
    if excluded {
        return ;
    }
    match record.status {
        ChangeStatus::Added => {},
        _ => {
            return ;
        },
    }
    let (folder, component) = match classify(record.path.as_str()) {
        Some(fc) => fc,
        None => {
            return ;
        },
    };
    if component.as_str().is_empty() {
        return ;
    }
    let mapped = match lookup(mapping, &folder) {
        Some(t) => t,
        None => {
            return ;
        },
    };
    add_member(types, &mapped, component);
}

impl ToPackage for Vec<ChangeRecord> {
    open spec fn package_model(&self, type_mapping: Seq<(String, String)>) -> Seq<TypeGroupModel> {
        spec_aggregate(self@, type_mapping, Set::empty())
    }

    /// Converts a vector of change records to a `Package` struct. Here
    /// `type_mapping` pairs each component folder name, in all lowercase,
    /// with the component type name itself. No path is excluded: records are
    /// expected to have passed the path filter already.
    ///
    /// **Note**: Right now there is no support for components (such as
    /// `StandardObject` and `CustomObject`) which have a many-to-one
    /// relationship to their parent folder (ie. `objects`).
    fn to_package(&self, type_mapping: &Vec<(String, String)>) -> (p: Package)
        ensures
            p@.version == spec_version_of(None),
            p@.types == self.package_model(type_mapping@),
    {
        let mut package = Package::new(None);
        let mut types: Vec<Types> = Vec::new();
        let mut i: usize = 0;
        while i < self.len()
            invariant
                i <= self@.len(),
                groups_view(types@) == spec_aggregate(
                    self@.take(i as int),
                    type_mapping@,
                    Set::empty(),
                ),
            decreases self@.len() - i,
        {
            apply_record(&mut types, &self[i], type_mapping, false);
            proof {
                assert(self@.take(i + 1 as int).drop_last() =~= self@.take(i as int));
                assert(self@.take(i + 1 as int).last() == self@[i as int]);
            }
            i = i + 1;
        }
        proof {
            assert(self@.take(self@.len() as int) =~= self@);
        }
        package.types = types;
        package
    }
}

/// Builds the manifest of a filtered, classified, grouped record sequence:
/// the change-classification pipeline of one revision range. `filter` shuts
/// out ignored paths, and `version` overrides the default manifest version.
pub fn aggregate(
    records: &Vec<ChangeRecord>,
    type_mapping: &Vec<(String, String)>,
    filter: &ignore::gitignore::Gitignore,
    version: Option<&str>,
) -> (p: Package)
    requires
        forall|i: int| 0 <= i < records@.len() ==> relative_path(records@[i].path@),
    ensures
        p@.version == spec_version_of(version),
        p@.types == spec_aggregate(records@, type_mapping@, excluded_set(*filter)),
        distinct_names(p@.types),
{
    let mut package = Package::new(version);
    let mut types: Vec<Types> = Vec::new();
    let mut i: usize = 0;
    while i < records.len()
        invariant
            i <= records@.len(),
            forall|k: int| 0 <= k < records@.len() ==> relative_path(records@[k].path@),
            groups_view(types@) == spec_aggregate(
                records@.take(i as int),
                type_mapping@,
                excluded_set(*filter),
            ),
        decreases records@.len() - i,
    {
        let record = &records[i];
        let excluded = path_is_excluded(filter, record.path.as_str());
        apply_record(&mut types, record, type_mapping, excluded);
        proof {
            assert(records@.take(i + 1 as int).drop_last() =~= records@.take(i as int));
            assert(records@.take(i + 1 as int).last() == records@[i as int]);
        }
        i = i + 1;
    }
    proof {
        assert(records@.take(records@.len() as int) =~= records@);
        lemma_aggregate_distinct(records@, type_mapping@, excluded_set(*filter));
    }
    package.types = types;
    package
}

/// The whole pipeline of one revision range: the records aggregated under the
/// mapping and the path filter, rendered as the manifest text.
pub fn destructive_changes(
    records: &Vec<ChangeRecord>,
    type_mapping: &Vec<(String, String)>,
    filter: &ignore::gitignore::Gitignore,
    version: Option<&str>,
) -> (r: String)
    requires
        forall|i: int| 0 <= i < records@.len() ==> relative_path(records@[i].path@),
    ensures
        r@ == spec_package_xml(
            PackageModel {
                version: spec_version_of(version),
                types: spec_aggregate(records@, type_mapping@, excluded_set(*filter)),
            },
        ),
{
    let package = aggregate(records, type_mapping, filter, version);
    let r = package.to_xml();
    proof {
        assert(package@ =~= PackageModel {
            version: spec_version_of(version),
            types: spec_aggregate(records@, type_mapping@, excluded_set(*filter)),
        });
    }
    r
}

} // verus!
