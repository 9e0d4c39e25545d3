//! Laws of the pipeline: what aggregation and rendering guarantee for every
//! input, stated over the mathematical model and proved once and for all.
use crate::aggregate::{
    ChangeRecord, distinct_names, lemma_group_index, spec_add_member, spec_aggregate,
    spec_group_index, spec_lookup, spec_member_of,
};
use crate::classify::spec_classify;
use crate::forcedotcom::{PackageModel, TypeGroupModel, spec_package_xml, spec_version_of};
use vstd::prelude::*;

verus! {

/// The component ids that records contributing to type `t` supply, in input
/// order: the members the group named `t` must end up with.
pub open spec fn members_for(
    records: Seq<ChangeRecord>,
    mapping: Seq<(String, String)>,
    excluded: Set<Seq<char>>,
    t: Seq<char>,
) -> Seq<Seq<char>>
    decreases records.len(),
{
    if records.len() == 0 {
        Seq::empty()
    } else {
        let pre = members_for(records.drop_last(), mapping, excluded, t);
        match spec_member_of(
            records.last(),
            mapping,
            excluded.contains(records.last().path@),
        ) {
            Some(tm) => if tm.0 == t {
                pre.push(tm.1)
            } else {
                pre
            },
            None => pre,
        }
    }
}

/// Grouping, in full: the aggregate holds one group per distinct resolved
/// type name; each group is non-empty and holds exactly the component ids of
/// the records that resolved to its name, in input order; and every name some
/// record resolved to has its group.
pub proof fn lemma_grouping(
    records: Seq<ChangeRecord>,
    mapping: Seq<(String, String)>,
    excluded: Set<Seq<char>>,
)
    ensures
        distinct_names(spec_aggregate(records, mapping, excluded)),
        forall|g: int|
            0 <= g < spec_aggregate(records, mapping, excluded).len() ==> #[trigger] spec_aggregate(
                records,
                mapping,
                excluded,
            )[g].members == members_for(
                records,
                mapping,
                excluded,
                spec_aggregate(records, mapping, excluded)[g].name,
            ),
        forall|g: int|
            0 <= g < spec_aggregate(records, mapping, excluded).len() ==> #[trigger] spec_aggregate(
                records,
                mapping,
                excluded,
            )[g].members.len() > 0,
        forall|t: Seq<char>|
            members_for(records, mapping, excluded, t).len() > 0 ==> exists|g: int|
                0 <= g < spec_aggregate(records, mapping, excluded).len() && #[trigger] spec_aggregate(
                    records,
                    mapping,
                    excluded,
                )[g].name == t,
    decreases records.len(),
{
    if records.len() > 0 {
        lemma_grouping(records.drop_last(), mapping, excluded);
        let pre = spec_aggregate(records.drop_last(), mapping, excluded);
        let agg = spec_aggregate(records, mapping, excluded);
        let r = records.last();
        let exc = excluded.contains(r.path@);
        match spec_member_of(r, mapping, exc) {
            None => {
                assert(agg == pre);
                assert(forall|t: Seq<char>|
                    members_for(records, mapping, excluded, t) == members_for(
                        records.drop_last(),
                        mapping,
                        excluded,
                        t,
                    ));
            },
            Some(tm) => {
                let t0 = tm.0;
                let m0 = tm.1;
                lemma_group_index(pre, t0);
                let k = spec_group_index(pre, t0);
                assert(forall|t: Seq<char>|
                    t != t0 ==> members_for(records, mapping, excluded, t) == members_for(
                        records.drop_last(),
                        mapping,
                        excluded,
                        t,
                    ));
                assert(members_for(records, mapping, excluded, t0) == members_for(
                    records.drop_last(),
                    mapping,
                    excluded,
                    t0,
                ).push(m0));
                if k < pre.len() {
                    assert(agg == pre.update(
                        k,
                        TypeGroupModel { name: t0, members: pre[k].members.push(m0) },
                    ));
                    assert forall|g: int| 0 <= g < agg.len() implies #[trigger] agg[g].members
                        == members_for(records, mapping, excluded, agg[g].name) by {
                        if g == k {
                            assert(pre[k].members == members_for(
                                records.drop_last(),
                                mapping,
                                excluded,
                                t0,
                            ));
                        } else {
                            assert(agg[g] == pre[g]);
                            assert(agg[g].name != t0);
                        }
                    }
                    assert forall|t: Seq<char>|
                        members_for(records, mapping, excluded, t).len() > 0 implies exists|g: int|
                        0 <= g < agg.len() && #[trigger] agg[g].name == t by {
                        if t == t0 {
                            assert(agg[k].name == t0);
                        } else {
                            let g = choose|g: int|
                                0 <= g < pre.len() && #[trigger] pre[g].name == t;
                            assert(agg[g].name == t);
                        }
                    }
                } else {
                    assert(agg == pre.push(TypeGroupModel { name: t0, members: seq![m0] }));
                    // no group of `pre` is named `t0`, so no earlier record
                    // resolved to `t0`
                    if members_for(records.drop_last(), mapping, excluded, t0).len() > 0 {
                        let g = choose|g: int|
                            0 <= g < pre.len() && #[trigger] pre[g].name == t0;
                        assert(false);
                    }
                    assert(members_for(records, mapping, excluded, t0) =~= seq![m0]);
                    assert forall|g: int| 0 <= g < agg.len() implies #[trigger] agg[g].members
                        == members_for(records, mapping, excluded, agg[g].name) by {
                        if g < pre.len() {
                            assert(agg[g] == pre[g]);
                            assert(agg[g].name != t0);
                        } else {
                            assert(agg[g].name == t0);
                        }
                    }
                    assert forall|t: Seq<char>|
                        members_for(records, mapping, excluded, t).len() > 0 implies exists|g: int|
                        0 <= g < agg.len() && #[trigger] agg[g].name == t by {
                        if t == t0 {
                            assert(agg[pre.len() as int].name == t0);
                        } else {
                            let g = choose|g: int|
                                0 <= g < pre.len() && #[trigger] pre[g].name == t;
                            assert(agg[g].name == t);
                        }
                    }
                    assert(distinct_names(agg));
                }
            },
        }
    }
}

/// A record that contributes no member leaves the aggregate exactly as it
/// would be without the record.
pub proof fn lemma_nonmember_removal(
    records: Seq<ChangeRecord>,
    mapping: Seq<(String, String)>,
    excluded: Set<Seq<char>>,
    i: int,
)
    requires
        0 <= i < records.len(),
        spec_member_of(records[i], mapping, excluded.contains(records[i].path@)) is None,
    ensures
        spec_aggregate(records, mapping, excluded) == spec_aggregate(
            records.remove(i),
            mapping,
            excluded,
        ),
    decreases records.len(),
{
    if i == records.len() - 1 {
        assert(records.remove(i) =~= records.drop_last());
    } else {
        let pre = records.drop_last();
        assert(pre[i] == records[i]);
        lemma_nonmember_removal(pre, mapping, excluded, i);
        assert(records.remove(i).drop_last() =~= pre.remove(i));
        assert(records.remove(i).last() == records.last());
    }
}

/// Filtering by status: a record whose status is not `Added` never
/// contributes a member — the aggregate is the one of the other records.
pub proof fn lemma_non_added_contributes_nothing(
    records: Seq<ChangeRecord>,
    mapping: Seq<(String, String)>,
    excluded: Set<Seq<char>>,
    i: int,
)
    requires
        0 <= i < records.len(),
        !(records[i].status is Added),
    ensures
        spec_aggregate(records, mapping, excluded) == spec_aggregate(
            records.remove(i),
            mapping,
            excluded,
        ),
{
    lemma_nonmember_removal(records, mapping, excluded, i);
}

/// Ignore respect: a record whose path the filter excludes never contributes
/// a member — the aggregate is the one of the other records.
pub proof fn lemma_excluded_contributes_nothing(
    records: Seq<ChangeRecord>,
    mapping: Seq<(String, String)>,
    excluded: Set<Seq<char>>,
    i: int,
)
    requires
        0 <= i < records.len(),
        excluded.contains(records[i].path@),
    ensures
        spec_aggregate(records, mapping, excluded) == spec_aggregate(
            records.remove(i),
            mapping,
            excluded,
        ),
{
    lemma_nonmember_removal(records, mapping, excluded, i);
}

/// Mapping completeness, the negative half: a record that classifies to an
/// empty component id, or whose folder key is absent from the mapping,
/// produces no member — and neither does an unclassifiable record.
pub proof fn lemma_unqualified_contributes_nothing(
    records: Seq<ChangeRecord>,
    mapping: Seq<(String, String)>,
    excluded: Set<Seq<char>>,
    i: int,
)
    requires
        0 <= i < records.len(),
        match spec_classify(records[i].path@) {
            Some(fc) => fc.1.len() == 0 || spec_lookup(mapping, fc.0) is None,
            None => true,
        },
    ensures
        spec_aggregate(records, mapping, excluded) == spec_aggregate(
            records.remove(i),
            mapping,
            excluded,
        ),
{
    lemma_nonmember_removal(records, mapping, excluded, i);
}

/// Each record that resolves to a member lands that member in the sequence
/// `members_for` of its type.
pub proof fn lemma_members_for_contains(
    records: Seq<ChangeRecord>,
    mapping: Seq<(String, String)>,
    excluded: Set<Seq<char>>,
    i: int,
)
    requires
        0 <= i < records.len(),
        spec_member_of(records[i], mapping, excluded.contains(records[i].path@)) is Some,
    ensures
        ({
            let tm = spec_member_of(
                records[i],
                mapping,
                excluded.contains(records[i].path@),
            )->Some_0;
            members_for(records, mapping, excluded, tm.0).contains(tm.1)
        }),
    decreases records.len(),
{
    let tm = spec_member_of(records[i], mapping, excluded.contains(records[i].path@))->Some_0;
    if i == records.len() - 1 {
        let s = members_for(records, mapping, excluded, tm.0);
        assert(s.last() == tm.1);
        assert(s.contains(tm.1));
    } else {
        let pre = records.drop_last();
        assert(pre[i] == records[i]);
        lemma_members_for_contains(pre, mapping, excluded, i);
        let s0 = members_for(pre, mapping, excluded, tm.0);
        let s = members_for(records, mapping, excluded, tm.0);
        let j = choose|j: int| 0 <= j < s0.len() && s0[j] == tm.1;
        assert(s[j] == tm.1);
        assert(s.contains(tm.1));
    }
}

/// Mapping completeness, the positive half: a record whose status is `Added`,
/// whose path passes the filter and classifies to a non-empty component id,
/// and whose folder key the mapping resolves, lands its component id in the
/// group of its resolved type name.
pub proof fn lemma_qualifying_record_appears(
    records: Seq<ChangeRecord>,
    mapping: Seq<(String, String)>,
    excluded: Set<Seq<char>>,
    i: int,
)
    requires
        0 <= i < records.len(),
        spec_member_of(records[i], mapping, excluded.contains(records[i].path@)) is Some,
    ensures
        ({
            let tm = spec_member_of(
                records[i],
                mapping,
                excluded.contains(records[i].path@),
            )->Some_0;
            exists|g: int|
                {
                    &&& 0 <= g < spec_aggregate(records, mapping, excluded).len()
                    &&& #[trigger] spec_aggregate(records, mapping, excluded)[g].name == tm.0
                    &&& spec_aggregate(records, mapping, excluded)[g].members.contains(tm.1)
                }
        }),
{
    let tm = spec_member_of(records[i], mapping, excluded.contains(records[i].path@))->Some_0;
    lemma_members_for_contains(records, mapping, excluded, i);
    lemma_grouping(records, mapping, excluded);
    let agg = spec_aggregate(records, mapping, excluded);
    let g = choose|g: int| 0 <= g < agg.len() && #[trigger] agg[g].name == tm.0;
    assert(agg[g].members == members_for(records, mapping, excluded, tm.0));
}

/// Grouping, the smallest instance: two records that resolve to one and the
/// same type name aggregate to a single group holding both component ids, in
/// first-seen order.
pub proof fn lemma_two_records_one_group(
    first: ChangeRecord,
    second: ChangeRecord,
    mapping: Seq<(String, String)>,
    excluded: Set<Seq<char>>,
)
    requires
        spec_member_of(first, mapping, excluded.contains(first.path@)) is Some,
        spec_member_of(second, mapping, excluded.contains(second.path@)) is Some,
        spec_member_of(first, mapping, excluded.contains(first.path@))->Some_0.0
            == spec_member_of(second, mapping, excluded.contains(second.path@))->Some_0.0,
    ensures
        ({
            let tm1 = spec_member_of(first, mapping, excluded.contains(first.path@))->Some_0;
            let tm2 = spec_member_of(second, mapping, excluded.contains(second.path@))->Some_0;
            let agg = spec_aggregate(seq![first, second], mapping, excluded);
            &&& agg.len() == 1
            &&& agg[0].name == tm1.0
            &&& agg[0].members == seq![tm1.1, tm2.1]
        }),
{
    let tm1 = spec_member_of(first, mapping, excluded.contains(first.path@))->Some_0;
    let tm2 = spec_member_of(second, mapping, excluded.contains(second.path@))->Some_0;
    let recs = seq![first, second];
    assert(recs.drop_last() =~= seq![first]);
    assert(seq![first].drop_last() =~= Seq::<ChangeRecord>::empty());
    let one = spec_aggregate(seq![first], mapping, excluded);
    assert(spec_aggregate(Seq::<ChangeRecord>::empty(), mapping, excluded)
        == Seq::<TypeGroupModel>::empty());
    assert(seq![first].last() == first);
    assert(one == spec_add_member(Seq::<TypeGroupModel>::empty(), tm1.0, tm1.1));
    assert(one =~~= seq![TypeGroupModel { name: tm1.0, members: seq![tm1.1] }]);
    let agg = spec_aggregate(recs, mapping, excluded);
    assert(spec_group_index(one, tm2.0) == 0);
    assert(agg == one.update(
        0,
        TypeGroupModel { name: tm2.0, members: one[0].members.push(tm2.1) },
    ));
    assert(agg[0].members =~= seq![tm1.1, tm2.1]);
}

/// Idempotence: two manifests aggregated from the same records, mapping,
/// exclusion set and version render to the same text, byte for byte.
pub proof fn lemma_render_idempotent(
    first: PackageModel,
    second: PackageModel,
    records: Seq<ChangeRecord>,
    mapping: Seq<(String, String)>,
    excluded: Set<Seq<char>>,
    version: Option<&str>,
)
    requires
        first.types == spec_aggregate(records, mapping, excluded),
        first.version == spec_version_of(version),
        second.types == spec_aggregate(records, mapping, excluded),
        second.version == spec_version_of(version),
    ensures
        spec_package_xml(first) == spec_package_xml(second),
{
    assert(first =~= second);
}

} // verus!
