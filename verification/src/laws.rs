//! Laws of the aggregator and renderer, stated and proved once and for all:
//! pointwise aggregation of non-colliding offsets and its order independence,
//! the union-wrap shape of flat collisions, preservation of the first-seen
//! field name, and the empty argument list.

use vstd::prelude::*;

use crate::aggregate::spec_aggregate_members;
use crate::aggregate::spec_has_offset;
use crate::aggregate::spec_merge_one;
use crate::aggregate::spec_merge_text;
use crate::aggregate::spec_offset_index;
use crate::aggregate::unique_offsets;
use crate::aggregate::SpecSlot;
use crate::kinds::TypeData;
use crate::render::spec_render;
use crate::table::Member;
use crate::table::TypeRecord;

verus! {

/// No two members of the list share a byte offset.
pub open spec fn distinct_offsets(members: Seq<Member>) -> bool {
    forall|i: int, j: int| 0 <= i < j < members.len() ==> members[i].offset != members[j].offset
}

/// Some member of the list is laid out at byte offset `off`.
pub open spec fn member_has_offset(members: Seq<Member>, off: u32) -> bool {
    exists|j: int| 0 <= j < members.len() && members[j].offset == off
}

/// The position of the first member laid out at `off`, or `-1`.
pub open spec fn first_at_offset(members: Seq<Member>, off: u32) -> int
    decreases members.len(),
{
    if members.len() == 0 {
        -1
    } else if members[0].offset == off {
        0
    } else {
        let r = first_at_offset(members.drop_first(), off);
        if r == -1 {
            -1
        } else {
            1 + r
        }
    }
}

/// The slot a member renders to when its offset is fresh.
pub open spec fn spec_fresh_slot(t: Seq<TypeRecord>, m: Member) -> (u32, SpecSlot) {
    (
        m.offset,
        SpecSlot {
            name: m.name@,
            text: spec_render(t, m.field_type as int, Some(m.name@), None).1,
        },
    )
}

proof fn lemma_member_has_offset_push(members: Seq<Member>, m: Member, off: u32)
    ensures
        member_has_offset(members.push(m), off) == (member_has_offset(members, off) || m.offset
            == off),
{
    if member_has_offset(members, off) {
        let j = choose|j: int| 0 <= j < members.len() && members[j].offset == off;
        assert(members.push(m)[j].offset == off);
    }
    if m.offset == off {
        assert(members.push(m)[members.len() as int].offset == off);
    }
    if member_has_offset(members.push(m), off) {
        let j = choose|j: int|
            0 <= j < members.push(m).len() && members.push(m)[j].offset == off;
        if j < members.len() {
            assert(members[j].offset == off);
        }
    }
}

proof fn lemma_first_at_offset_push(members: Seq<Member>, m: Member, off: u32)
    ensures
        first_at_offset(members.push(m), off) == if member_has_offset(members, off) {
            first_at_offset(members, off)
        } else if m.offset == off {
            members.len() as int
        } else {
            -1int
        },
    decreases members.len(),
{
    if members.len() == 0 {
        assert(members.push(m)[0] == m);
        assert(!member_has_offset(members, off));
        assert(members.push(m).drop_first() =~= members);
        if m.offset == off {
            assert(first_at_offset(members.push(m), off) == 0);
        } else {
            assert(first_at_offset(members, off) == -1);
            assert(first_at_offset(members.push(m), off) == -1);
        }
    } else {
        assert(members.push(m)[0] == members[0]);
        lemma_first_at_offset_push(members.drop_first(), m, off);
        assert(members.push(m).drop_first() =~= members.drop_first().push(m));
        assert(first_at_offset(members.push(m).drop_first(), off) == first_at_offset(
            members.drop_first().push(m),
            off,
        ));
        if members[0].offset == off {
            assert(member_has_offset(members, off));
            assert(first_at_offset(members.push(m), off) == 0);
            assert(first_at_offset(members, off) == 0);
        } else if member_has_offset(members, off) {
            let j = choose|j: int| 0 <= j < members.len() && members[j].offset == off;
            assert(j > 0);
            assert(members.drop_first()[j - 1].offset == off);
            assert(member_has_offset(members.drop_first(), off));
            lemma_first_at_offset_found(members.drop_first(), off);
        } else {
            if member_has_offset(members.drop_first(), off) {
                let j = choose|j: int|
                    0 <= j < members.drop_first().len() && members.drop_first()[j].offset == off;
                assert(members[j + 1].offset == off);
                assert(false);
            }
        }
    }
}

proof fn lemma_first_at_offset_found(members: Seq<Member>, off: u32)
    requires
        member_has_offset(members, off),
    ensures
        0 <= first_at_offset(members, off) < members.len(),
        members[first_at_offset(members, off)].offset == off,
    decreases members.len(),
{
    if members.len() > 0 && members[0].offset != off {
        let j = choose|j: int| 0 <= j < members.len() && members[j].offset == off;
        assert(members.drop_first()[j - 1].offset == off);
        lemma_first_at_offset_found(members.drop_first(), off);
    }
}

/// Every invariant of one aggregation walk: offsets stay unique, the layout
/// carries exactly the offsets that occur among the members, and the name of
/// every slot is the name of the first member seen at its offset.
pub proof fn lemma_aggregate_members_invariants(t: Seq<TypeRecord>, members: Seq<Member>)
    ensures
        unique_offsets(spec_aggregate_members(t, members)),
        forall|off: u32|
            spec_has_offset(spec_aggregate_members(t, members), off) == member_has_offset(
                members,
                off,
            ),
        forall|k: int|
            #![trigger spec_aggregate_members(t, members)[k]]
            0 <= k < spec_aggregate_members(t, members).len() ==> {
                let l = spec_aggregate_members(t, members);
                let j = first_at_offset(members, l[k].0);
                0 <= j < members.len() && members[j].offset == l[k].0 && l[k].1.name == members[
                    j
                ].name@
            },
    decreases members.len(),
{
    let l = spec_aggregate_members(t, members);
    if members.len() == 0 {
        assert(forall|off: u32| !spec_has_offset(l, off));
        assert(forall|off: u32| !member_has_offset(members, off));
    } else {
        let dl = members.drop_last();
        let m = members.last();
        let lp = spec_aggregate_members(t, dl);
        lemma_aggregate_members_invariants(t, dl);
        assert(dl.push(m) =~= members);
        assert(forall|off: u32|
            member_has_offset(members, off) == (member_has_offset(dl, off) || m.offset == off))
            by {
            assert forall|off: u32|
                member_has_offset(members, off) == (member_has_offset(dl, off) || m.offset
                    == off) by {
                lemma_member_has_offset_push(dl, m, off);
            }
        }
        assert(forall|off: u32|
            first_at_offset(members, off) == if member_has_offset(dl, off) {
                first_at_offset(dl, off)
            } else if m.offset == off {
                dl.len() as int
            } else {
                -1int
            }) by {
            assert forall|off: u32|
                first_at_offset(members, off) == if member_has_offset(dl, off) {
                    first_at_offset(dl, off)
                } else if m.offset == off {
                    dl.len() as int
                } else {
                    -1int
                } by {
                lemma_first_at_offset_push(dl, m, off);
            }
        }
        assert(l == spec_merge_one(t, lp, m));
        if !spec_has_offset(lp, m.offset) {
            let slot = spec_fresh_slot(t, m);
            assert(l =~= lp.push(slot));
            assert(forall|k: int| 0 <= k < lp.len() ==> l[k] == lp[k]);
            assert(l[lp.len() as int] == slot);
            // Uniqueness: the fresh offset collides with nothing already there.
            assert forall|i: int, j: int| 0 <= i < j < l.len() implies l[i].0 != l[j].0 by {
                if j == lp.len() as int {
                    if l[i].0 == m.offset {
                        assert(spec_has_offset(lp, m.offset));
                    }
                }
            }
            // Offsets: those of the prefix plus the fresh one.
            assert forall|off: u32|
                spec_has_offset(l, off) == member_has_offset(members, off) by {
                if spec_has_offset(l, off) {
                    let i = choose|i: int| 0 <= i < l.len() && l[i].0 == off;
                    if i < lp.len() {
                        assert(spec_has_offset(lp, off));
                    }
                }
                if member_has_offset(members, off) {
                    if member_has_offset(dl, off) {
                        let i = choose|i: int| 0 <= i < lp.len() && lp[i].0 == off;
                        assert(l[i].0 == off);
                    } else {
                        assert(l[lp.len() as int].0 == off);
                    }
                }
            }
            // Names: old slots keep their first member, the fresh slot's
            // offset first occurs at the pushed member itself.
            assert forall|k: int| #![trigger l[k]] 0 <= k < l.len() implies {
                let j = first_at_offset(members, l[k].0);
                0 <= j < members.len() && members[j].offset == l[k].0 && l[k].1.name == members[
                    j
                ].name@
            } by {
                if k < lp.len() {
                    assert(spec_has_offset(lp, l[k].0));
                    assert(member_has_offset(dl, l[k].0));
                    assert(first_at_offset(members, l[k].0) == first_at_offset(dl, l[k].0));
                    assert(members[first_at_offset(dl, l[k].0)] == dl[first_at_offset(
                        dl,
                        l[k].0,
                    )]);
                } else {
                    assert(l[k].0 == m.offset);
                    assert(!member_has_offset(dl, m.offset));
                    assert(first_at_offset(members, m.offset) == dl.len() as int);
                    assert(members[dl.len() as int] == m);
                }
            }
        } else {
            let ki = spec_offset_index(lp, m.offset);
            assert(0 <= ki < lp.len() && lp[ki].0 == m.offset);
            assert(l =~= lp.update(
                ki,
                (
                    m.offset,
                    SpecSlot {
                        name: lp[ki].1.name,
                        text: spec_merge_text(
                            lp[ki].1.text,
                            spec_render(t, m.field_type as int, Some(m.name@), Some(lp[ki].1.text)).0,
                            spec_render(t, m.field_type as int, Some(m.name@), Some(lp[ki].1.text)).1,
                        ),
                    },
                ),
            ));
            assert(forall|k: int| 0 <= k < l.len() ==> l[k].0 == lp[k].0);
            assert(forall|k: int| 0 <= k < l.len() ==> l[k].1.name == lp[k].1.name);
            assert forall|off: u32|
                spec_has_offset(l, off) == member_has_offset(members, off) by {
                if spec_has_offset(l, off) {
                    let i = choose|i: int| 0 <= i < l.len() && l[i].0 == off;
                    assert(lp[i].0 == off);
                    assert(spec_has_offset(lp, off));
                }
                if member_has_offset(members, off) {
                    if member_has_offset(dl, off) {
                        let i = choose|i: int| 0 <= i < lp.len() && lp[i].0 == off;
                        assert(l[i].0 == off);
                    } else {
                        assert(l[ki].0 == off);
                    }
                }
            }
            assert forall|k: int| #![trigger l[k]] 0 <= k < l.len() implies {
                let j = first_at_offset(members, l[k].0);
                0 <= j < members.len() && members[j].offset == l[k].0 && l[k].1.name == members[
                    j
                ].name@
            } by {
                assert(spec_has_offset(lp, l[k].0));
                assert(member_has_offset(dl, l[k].0));
                assert(first_at_offset(members, l[k].0) == first_at_offset(dl, l[k].0));
                assert(members[first_at_offset(dl, l[k].0)] == dl[first_at_offset(dl, l[k].0)]);
            }
        }
    }
}

/// Name preservation: the name reported at any byte offset of an aggregated
/// layout is the name of the first member observed at that offset, however
/// many later members extended or replaced the slot's text.
pub proof fn lemma_name_preservation(t: Seq<TypeRecord>, members: Seq<Member>, k: int)
    requires
        0 <= k < spec_aggregate_members(t, members).len(),
    ensures
        ({
            let l = spec_aggregate_members(t, members);
            let j = first_at_offset(members, l[k].0);
            0 <= j < members.len() && members[j].offset == l[k].0 && l[k].1.name == members[
                j
            ].name@
        }),
{
    lemma_aggregate_members_invariants(t, members);
}

/// Pointwise aggregation: when no two members share a byte offset, the
/// layout has one slot per member, in declaration order, each rendered
/// independently of every other member.
pub proof fn lemma_distinct_offsets_pointwise(t: Seq<TypeRecord>, members: Seq<Member>)
    requires
        distinct_offsets(members),
    ensures
        spec_aggregate_members(t, members).len() == members.len(),
        forall|j: int|
            0 <= j < members.len() ==> spec_aggregate_members(t, members)[j] == spec_fresh_slot(
                t,
                members[j],
            ),
    decreases members.len(),
{
    if members.len() > 0 {
        let dl = members.drop_last();
        let m = members.last();
        let lp = spec_aggregate_members(t, dl);
        lemma_distinct_offsets_pointwise(t, dl);
        lemma_aggregate_members_invariants(t, dl);
        if spec_has_offset(lp, m.offset) {
            assert(member_has_offset(dl, m.offset));
            let j = choose|j: int| 0 <= j < dl.len() && dl[j].offset == m.offset;
            assert(members[j].offset == members[members.len() - 1].offset);
            assert(false);
        }
        assert(spec_aggregate_members(t, members) == lp.push(spec_fresh_slot(t, m)));
    }
}

/// Order independence: two member lists that hold the same members, each
/// list free of offset collisions, aggregate to layouts that agree at every
/// byte offset, in both presence and content.
#[verifier::rlimit(50)]
pub proof fn lemma_distinct_offsets_order_independent(
    t: Seq<TypeRecord>,
    m1: Seq<Member>,
    m2: Seq<Member>,
)
    requires
        distinct_offsets(m1),
        distinct_offsets(m2),
        forall|i: int|
            0 <= i < m1.len() ==> exists|j: int| 0 <= j < m2.len() && m2[j] == #[trigger] m1[i],
        forall|j: int|
            0 <= j < m2.len() ==> exists|i: int| 0 <= i < m1.len() && m1[i] == #[trigger] m2[j],
    ensures
        forall|off: u32|
            spec_has_offset(spec_aggregate_members(t, m1), off) == spec_has_offset(
                spec_aggregate_members(t, m2),
                off,
            ),
        forall|off: u32|
            spec_has_offset(spec_aggregate_members(t, m1), off) ==> {
                let l1 = spec_aggregate_members(t, m1);
                let l2 = spec_aggregate_members(t, m2);
                l1[spec_offset_index(l1, off)].1 == l2[spec_offset_index(l2, off)].1
            },
{
    let l1 = spec_aggregate_members(t, m1);
    let l2 = spec_aggregate_members(t, m2);
    lemma_distinct_offsets_pointwise(t, m1);
    lemma_distinct_offsets_pointwise(t, m2);
    lemma_aggregate_members_invariants(t, m1);
    lemma_aggregate_members_invariants(t, m2);
    assert forall|off: u32| spec_has_offset(l1, off) == spec_has_offset(l2, off) by {
        if member_has_offset(m1, off) {
            let i = choose|i: int| 0 <= i < m1.len() && m1[i].offset == off;
            assert(exists|j: int| 0 <= j < m2.len() && m2[j] == m1[i]);
            let j = choose|j: int| 0 <= j < m2.len() && m2[j] == m1[i];
            assert(m2[j].offset == off);
        }
        if member_has_offset(m2, off) {
            let j = choose|j: int| 0 <= j < m2.len() && m2[j].offset == off;
            assert(exists|i: int| 0 <= i < m1.len() && m1[i] == m2[j]);
            let i = choose|i: int| 0 <= i < m1.len() && m1[i] == m2[j];
            assert(m1[i].offset == off);
        }
    }
    assert forall|off: u32| spec_has_offset(l1, off) implies {
        l1[spec_offset_index(l1, off)].1 == l2[spec_offset_index(l2, off)].1
    } by {
        let k1 = spec_offset_index(l1, off);
        assert(0 <= k1 < l1.len() && l1[k1].0 == off);
        assert(spec_has_offset(l2, off));
        let k2 = spec_offset_index(l2, off);
        assert(0 <= k2 < l2.len() && l2[k2].0 == off);
        assert(l1[k1] == spec_fresh_slot(t, m1[k1]));
        assert(l2[k2] == spec_fresh_slot(t, m2[k2]));
        assert(m1[k1].offset == off);
        assert(m2[k2].offset == off);
        assert(exists|i: int| 0 <= i < m1.len() && m1[i] == m2[k2]);
        let i = choose|i: int| 0 <= i < m1.len() && m1[i] == m2[k2];
        assert(m1[i].offset == off);
        assert(i == k1);
    }
}

/// A record that is not a bit-field renders the same with or without a
/// previous block: only the continuing bit-field path reads it.
pub proof fn lemma_render_ignores_prev(
    t: Seq<TypeRecord>,
    idx: int,
    name: Option<Seq<char>>,
    prev: Option<Seq<char>>,
)
    requires
        0 <= idx < t.len() ==> !(t[idx] matches TypeRecord::Bitfield { .. }),
    ensures
        spec_render(t, idx, name, prev) == spec_render(t, idx, name, None),
{
}

/// A record that is not a bit-field never renders with the bit-field tag.
pub proof fn lemma_render_kind_not_bitfield(
    t: Seq<TypeRecord>,
    idx: int,
    name: Option<Seq<char>>,
    prev: Option<Seq<char>>,
)
    requires
        0 <= idx < t.len() ==> !(t[idx] matches TypeRecord::Bitfield { .. }),
    ensures
        spec_render(t, idx, name, prev).0 != TypeData::Bitfield,
{
}

/// Union wrap: two flat members at one byte offset aggregate to a single
/// slot whose text wraps both original declarations, verbatim and in order,
/// in one anonymous union block.
pub proof fn lemma_union_wrap(t: Seq<TypeRecord>, m1: Member, m2: Member)
    requires
        m1.offset == m2.offset,
        0 <= m1.field_type < t.len(),
        0 <= m2.field_type < t.len(),
        !(t[m1.field_type as int] matches TypeRecord::Bitfield { .. }),
        !(t[m2.field_type as int] matches TypeRecord::Bitfield { .. }),
        ({
            let t1 = spec_render(t, m1.field_type as int, Some(m1.name@), None).1;
            !(t1.len() >= 2 && t1.last() == '}')
        }),
    ensures
        ({
            let l = spec_aggregate_members(t, seq![m1, m2]);
            let t1 = spec_render(t, m1.field_type as int, Some(m1.name@), None).1;
            let t2 = spec_render(t, m2.field_type as int, Some(m2.name@), None).1;
            l.len() == 1 && l[0].0 == m1.offset && l[0].1.name == m1.name@ && l[0].1.text
                == "union {\n"@ + t1 + "\n"@ + t2 + ";\n}"@
        }),
{
    let ms = seq![m1, m2];
    let t1 = spec_render(t, m1.field_type as int, Some(m1.name@), None).1;
    assert(ms.drop_last() =~= seq![m1]);
    assert(ms.last() == m2);
    assert(seq![m1].drop_last() =~= Seq::<Member>::empty());
    let l0 = spec_aggregate_members(t, Seq::<Member>::empty());
    assert(l0 =~= Seq::<(u32, SpecSlot)>::empty());
    assert(!spec_has_offset(l0, m1.offset));
    let l1 = spec_aggregate_members(t, seq![m1]);
    assert(l1 == l0.push(spec_fresh_slot(t, m1)));
    assert(l1.len() == 1);
    assert(l1[0] == spec_fresh_slot(t, m1));
    assert(spec_has_offset(l1, m2.offset));
    let ki = spec_offset_index(l1, m2.offset);
    assert(0 <= ki < 1 && l1[ki].0 == m2.offset);
    assert(ki == 0);
    lemma_render_ignores_prev(t, m2.field_type as int, Some(m2.name@), Some(t1));
    lemma_render_kind_not_bitfield(t, m2.field_type as int, Some(m2.name@), Some(t1));
    let l = spec_aggregate_members(t, ms);
    assert(l == spec_merge_one(t, l1, m2));
    assert(l.len() == 1);
}

/// An empty argument list renders as exactly `()`.
pub proof fn lemma_empty_argument_list(
    t: Seq<TypeRecord>,
    idx: int,
    name: Option<Seq<char>>,
    prev: Option<Seq<char>>,
)
    requires
        0 <= idx < t.len(),
        t[idx] matches TypeRecord::ArgumentList { arguments } && arguments@.len() == 0,
    ensures
        spec_render(t, idx, name, prev).1 == "()"@,
{
    proof_strlit_parens();
    assert(spec_render(t, idx, name, prev).1 =~= "()"@);
}

proof fn proof_strlit_parens()
    ensures
        "("@.len() == 1 && "("@[0] == '(',
        ")"@.len() == 1 && ")"@[0] == ')',
        "()"@.len() == 2 && "()"@[0] == '(' && "()"@[1] == ')',
{
    reveal_strlit("(");
    reveal_strlit(")");
    reveal_strlit("()");
}

} // verus!
