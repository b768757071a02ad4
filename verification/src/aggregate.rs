//! The field aggregator: walks a field list in declaration order and merges
//! every member into an offset-keyed layout, wrapping colliding flat members
//! in an anonymous union and splicing colliding bit-fields into one packed
//! block.

use vstd::prelude::*;
use vstd::string::*;

use crate::kinds::TypeData;
use crate::render::render_at;
use crate::render::spec_render;
use crate::table::members_wf;
use crate::table::record_wf;
use crate::table::Member;
use crate::table::TypeIndex;
use crate::table::TypeRecord;
use crate::table::TypeTable;

verus! {

/// The failure of one aggregation walk.
#[derive(Debug, Clone, Copy, PartialEq, Eq, Structural)]
pub enum AggregateError {
    /// The field-list index lies outside the table.
    Unresolved { index: TypeIndex },
    /// A continuing bit-field (position above zero) was the first member
    /// seen at its byte offset, so no previously rendered block exists to
    /// splice it into.  This betrays broken offset tracking in the input and
    /// is surfaced as a failure rather than recorded as an empty
    /// declaration.
    SpliceWithoutBlock { offset: u32 },
}

/// One slot of a structure layout: the canonical field name at a byte offset
/// and the merged declaration text of every member recorded there.
pub struct FieldSlot {
    pub name: String,
    pub text: String,
}

/// The mathematical image of a field slot.
pub ghost struct SpecSlot {
    pub name: Seq<char>,
    pub text: Seq<char>,
}

/// Some slot of `l` carries byte offset `off`.
pub open spec fn spec_has_offset(l: Seq<(u32, SpecSlot)>, off: u32) -> bool {
    exists|i: int| 0 <= i < l.len() && l[i].0 == off
}

/// The position of the slot carrying `off`; meaningful when offsets are
/// unique and `spec_has_offset` holds.
pub open spec fn spec_offset_index(l: Seq<(u32, SpecSlot)>, off: u32) -> int {
    choose|i: int| 0 <= i < l.len() && l[i].0 == off
}

/// No two slots share a byte offset.
pub open spec fn unique_offsets(l: Seq<(u32, SpecSlot)>) -> bool {
    forall|i: int, j: int| 0 <= i < j < l.len() ==> l[i].0 != l[j].0
}

/// The merged text when a member's declaration `new_text` (classified
/// `new_kind`) lands on a slot already holding `old_text`.
///
/// An existing block (text closed by `}`) is extended: a flat declaration is
/// spliced in before the closing brace, while a freshly rendered bit-field
/// already carries the whole re-spliced block and replaces the text outright.
/// Two flat declarations are wrapped together into an anonymous union.
///
/// The outright replacement means a bit-field that restarts at position zero
/// over an already-seen offset supersedes the earlier packed block rather
/// than extending it: the merge is monotonic only for the splice and wrap
/// paths.
pub open spec fn spec_merge_text(
    old_text: Seq<char>,
    new_kind: TypeData,
    new_text: Seq<char>,
) -> Seq<char> {
    if old_text.len() >= 2 && old_text.last() == '}' {
        if new_kind != TypeData::Bitfield {
            old_text.take(old_text.len() - 2) + "\n"@ + new_text + ";\n}"@
        } else {
            new_text
        }
    } else {
        "union {\n"@ + old_text + "\n"@ + new_text + ";\n}"@
    }
}

/// One member merged into the layout built so far.
pub open spec fn spec_merge_one(
    t: Seq<TypeRecord>,
    l: Seq<(u32, SpecSlot)>,
    m: Member,
) -> Seq<(u32, SpecSlot)> {
    if !spec_has_offset(l, m.offset) {
        let rend = spec_render(t, m.field_type as int, Some(m.name@), None);
        l.push((m.offset, SpecSlot { name: m.name@, text: rend.1 }))
    } else {
        let k = spec_offset_index(l, m.offset);
        let old_slot = l[k].1;
        let rend = spec_render(t, m.field_type as int, Some(m.name@), Some(old_slot.text));
        l.update(
            k,
            (
                m.offset,
                SpecSlot {
                    name: old_slot.name,
                    text: spec_merge_text(old_slot.text, rend.0, rend.1),
                },
            ),
        )
    }
}

/// The layout of a member sequence: every member merged, in declaration
/// order.
pub open spec fn spec_aggregate_members(t: Seq<TypeRecord>, members: Seq<Member>) -> Seq<
    (u32, SpecSlot),
>
    decreases members.len(),
{
    if members.len() == 0 {
        Seq::<(u32, SpecSlot)>::empty()
    } else {
        spec_merge_one(t, spec_aggregate_members(t, members.drop_last()), members.last())
    }
}

/// The walk's one precondition violation: the member lands at a byte offset
/// not seen before, yet its declaration is the continuation of a packed-bits
/// block (an empty bit-field rendering), so there is no block to splice it
/// into.
pub open spec fn spec_splice_violation(
    t: Seq<TypeRecord>,
    l: Seq<(u32, SpecSlot)>,
    m: Member,
) -> bool {
    !spec_has_offset(l, m.offset) && {
        let rend = spec_render(t, m.field_type as int, Some(m.name@), None);
        rend.0 == TypeData::Bitfield && rend.1.len() == 0
    }
}

/// The walk over `members` hits the splice violation at position `j`.
pub open spec fn spec_violation_at(t: Seq<TypeRecord>, members: Seq<Member>, j: int) -> bool {
    0 <= j < members.len() && spec_splice_violation(
        t,
        spec_aggregate_members(t, members.take(j)),
        members[j],
    )
}

/// The walk over `members` hits no splice violation.
pub open spec fn spec_members_ok(t: Seq<TypeRecord>, members: Seq<Member>) -> bool {
    forall|j: int| !spec_violation_at(t, members, j)
}

/// The layout of the record at `idx`: its members' layout for a field list,
/// and empty for every other record shape.
pub open spec fn spec_aggregate(t: Seq<TypeRecord>, idx: int) -> Seq<(u32, SpecSlot)> {
    if 0 <= idx < t.len() {
        match t[idx] {
            TypeRecord::FieldList { members } => spec_aggregate_members(t, members@),
            _ => Seq::<(u32, SpecSlot)>::empty(),
        }
    } else {
        Seq::<(u32, SpecSlot)>::empty()
    }
}

/// An offset-keyed structure layout, in first-seen order.
pub struct StructLayout {
    slots: Vec<(u32, FieldSlot)>,
}

impl View for StructLayout {
    type V = Seq<(u32, SpecSlot)>;

    closed spec fn view(&self) -> Seq<(u32, SpecSlot)> {
        self.slots@.map_values(|p: (u32, FieldSlot)| (p.0, SpecSlot { name: p.1.name@, text: p.1.text@ }))
    }
}

impl StructLayout {
    /// The number of distinct byte offsets seen.
    pub fn len(&self) -> (r: usize)
        ensures
            r == self@.len(),
    {
        self.slots.len()
    }

    /// The byte offset of the slot at position `i`.
    pub fn offset_at(&self, i: usize) -> (r: u32)
        requires
            i < self@.len(),
        ensures
            r == self@[i as int].0,
    {
        self.slots[i].0
    }

    /// The canonical field name of the slot at position `i`.
    pub fn name_at(&self, i: usize) -> (r: &String)
        requires
            i < self@.len(),
        ensures
            r@ == self@[i as int].1.name,
    {
        &self.slots[i].1.name
    }

    /// The merged declaration text of the slot at position `i`.
    pub fn text_at(&self, i: usize) -> (r: &String)
        requires
            i < self@.len(),
        ensures
            r@ == self@[i as int].1.text,
    {
        &self.slots[i].1.text
    }

    /// The slot carrying byte offset `off`, if any.
    pub fn get(&self, off: u32) -> (r: Option<&FieldSlot>)
        ensures
            match r {
                Some(s) => exists|i: int|
                    0 <= i < self@.len() && self@[i].0 == off && self@[i].1.name == s.name@
                        && self@[i].1.text == s.text@,
                None => !spec_has_offset(self@, off),
            },
    {
        let mut i: usize = 0;
        while i < self.slots.len()
            invariant
                i <= self@.len(),
                self@.len() == self.slots@.len(),
                forall|k: int| 0 <= k < i ==> self@[k].0 != off,
            decreases self@.len() - i,
        {
            if self.slots[i].0 == off {
                proof {
                    assert(self@[i as int] == (
                        self.slots@[i as int].0,
                        SpecSlot {
                            name: self.slots@[i as int].1.name@,
                            text: self.slots@[i as int].1.text@,
                        },
                    ));
                }
                return Some(&self.slots[i].1);
            }
            i = i + 1;
        }
        None
    }
}

fn find_slot(slots: &Vec<(u32, FieldSlot)>, off: u32) -> (r: Option<usize>)
    ensures
        match r {
            Some(k) => k < slots@.len() && slots@[k as int].0 == off,
            None => forall|i: int| 0 <= i < slots@.len() ==> slots@[i].0 != off,
        },
{
    let mut i: usize = 0;
    while i < slots.len()
        invariant
            i <= slots@.len(),
            forall|k: int| 0 <= k < i ==> slots@[k].0 != off,
        decreases slots@.len() - i,
    {
        if slots[i].0 == off {
            return Some(i);
        }
        i = i + 1;
    }
    None
}

fn merge_text(old_text: &String, new_kind: TypeData, new_text: &String) -> (r: String)
    ensures
        r@ == spec_merge_text(old_text@, new_kind, new_text@),
{
    let tlen = old_text.as_str().unicode_len();
    if tlen >= 2 && old_text.as_str().get_char(tlen - 1) == '}' {
        if !(new_kind == TypeData::Bitfield) {
            let kept = old_text.as_str().substring_char(0, tlen - 2);
            let mut s = kept.to_owned();
            s.append("\n");
            s.append(new_text.as_str());
            s.append(";\n}");
            proof {
                assert(old_text@.subrange(0, old_text@.len() - 2) =~= old_text@.take(
                    old_text@.len() - 2,
                ));
            }
            s
        } else {
            new_text.clone()
        }
    } else {
        let mut s = String::from_str("union {\n");
        s.append(old_text.as_str());
        s.append("\n");
        s.append(new_text.as_str());
        s.append(";\n}");
        s
    }
}

/// Walk the field-list record at `fields` and build the offset-keyed layout
/// of its members.  A record of any other shape yields an empty layout.  The
/// walk fails when `fields` lies outside the table, and when a member's
/// declaration continues a packed-bits block at a byte offset that holds no
/// block yet; either failure is fatal to the caller's walk.
pub fn aggregate(table: &TypeTable, fields: TypeIndex) -> (r: Result<StructLayout, AggregateError>)
    requires
        table.wf(),
    ensures
        match r {
            Ok(layout) => fields < table@.len() && layout@ == spec_aggregate(
                table@,
                fields as int,
            ) && unique_offsets(layout@) && (table@[fields as int] matches TypeRecord::FieldList {
                members,
            } ==> spec_members_ok(table@, members@)),
            Err(e) => match e {
                AggregateError::Unresolved { index } => fields >= table@.len() && index == fields,
                AggregateError::SpliceWithoutBlock { offset } => fields < table@.len() && (
                table@[fields as int] matches TypeRecord::FieldList { members } && exists|j: int|
                    spec_violation_at(table@, members@, j) && (forall|k: int|
                        0 <= k < j ==> !spec_violation_at(table@, members@, k)) && offset
                        == members@[j].offset),
            },
        },
{
    if fields >= table.len() {
        return Err(AggregateError::Unresolved { index: fields });
    }
    aggregate_at(table, fields)
}

/// Aggregation of a field list a well-formed table resolves.
pub(crate) fn aggregate_at(table: &TypeTable, fields: TypeIndex) -> (r: Result<
    StructLayout,
    AggregateError,
>)
    requires
        table.wf(),
        fields < table@.len(),
    ensures
        match r {
            Ok(layout) => layout@ == spec_aggregate(table@, fields as int) && unique_offsets(
                layout@,
            ) && (table@[fields as int] matches TypeRecord::FieldList { members }
                ==> spec_members_ok(table@, members@)),
            Err(e) => table@[fields as int] matches TypeRecord::FieldList { members }
                && exists|j: int|
                spec_violation_at(table@, members@, j) && (forall|k: int|
                    0 <= k < j ==> !spec_violation_at(table@, members@, k)) && e == (
            AggregateError::SpliceWithoutBlock { offset: members@[j].offset }),
        },
{
    proof {
        assert(record_wf(table@[fields as int], fields as int));
    }
    let mut slots: Vec<(u32, FieldSlot)> = Vec::new();
    match table.get(fields) {
        TypeRecord::FieldList { members } => {
            let ghost t = table@;
            let mut j: usize = 0;
            proof {
                assert(slots@.map_values(
                    |p: (u32, FieldSlot)| (p.0, SpecSlot { name: p.1.name@, text: p.1.text@ }),
                ) =~= spec_aggregate_members(t, members@.take(0int)));
            }
            while j < members.len()
                invariant
                    table.wf(),
                    table@ == t,
                    fields < t.len(),
                    t[fields as int] == (TypeRecord::FieldList { members: *members }),
                    j <= members@.len(),
                    slots@.map_values(
                        |p: (u32, FieldSlot)| (p.0, SpecSlot { name: p.1.name@, text: p.1.text@ }),
                    ) == spec_aggregate_members(t, members@.take(j as int)),
                    unique_offsets(
                        slots@.map_values(
                            |p: (u32, FieldSlot)| (p.0, SpecSlot { name: p.1.name@, text: p.1.text@ }),
                        ),
                    ),
                    forall|k: int| 0 <= k < j ==> !spec_violation_at(t, members@, k),
                decreases members@.len() - j,
            {
                let ghost lv = slots@.map_values(
                    |p: (u32, FieldSlot)| (p.0, SpecSlot { name: p.1.name@, text: p.1.text@ }),
                );
                proof {
                    assert(record_wf(t[fields as int], fields as int));
                    assert(members_wf(members@, fields as int));
                    assert(members@[j as int].field_type < fields);
                    assert(members@.take(j as int + 1).drop_last() =~= members@.take(j as int));
                    assert(members@.take(j as int + 1).last() == members@[j as int]);
                }
                let m_field_type = members[j].field_type;
                let m_offset = members[j].offset;
                match find_slot(&slots, m_offset) {
                    None => {
                        proof {
                            assert(!spec_has_offset(lv, m_offset));
                        }
                        let rend = render_at(table, m_field_type, Some(members[j].name.as_str()), None);
                        if rend.0 == TypeData::Bitfield && rend.1.as_str().is_empty() {
                            proof {
                                assert(spec_violation_at(t, members@, j as int));
                            }
                            return Err(AggregateError::SpliceWithoutBlock { offset: m_offset });
                        }
                        proof {
                            assert(!spec_violation_at(t, members@, j as int));
                        }
                        let slot = FieldSlot { name: members[j].name.clone(), text: rend.1 };
                        slots.push((m_offset, slot));
                        proof {
                            assert(slots@.map_values(
                                |p: (u32, FieldSlot)| (p.0, SpecSlot { name: p.1.name@, text: p.1.text@ }),
                            ) =~= spec_merge_one(t, lv, members@[j as int]));
                        }
                    },
                    Some(k) => {
                        proof {
                            assert(lv[k as int].0 == m_offset);
                            assert(spec_has_offset(lv, m_offset));
                            assert(!spec_violation_at(t, members@, j as int));
                            let ki = spec_offset_index(lv, m_offset);
                            assert(0 <= ki < lv.len() && lv[ki].0 == m_offset);
                            assert(ki == k as int);
                        }
                        let old_text = slots[k].1.text.clone();
                        let rend = render_at(
                            table,
                            m_field_type,
                            Some(members[j].name.as_str()),
                            Some(old_text.as_str()),
                        );
                        let new_text = merge_text(&old_text, rend.0, &rend.1);
                        slots[k].1.text = new_text;
                        proof {
                            assert(slots@.map_values(
                                |p: (u32, FieldSlot)| (p.0, SpecSlot { name: p.1.name@, text: p.1.text@ }),
                            ) =~= spec_merge_one(t, lv, members@[j as int]));
                        }
                    },
                }
                j = j + 1;
            }
            proof {
                assert(members@.take(members@.len() as int) =~= members@);
            }
            Ok(StructLayout { slots })
        },
        _ => {
            proof {
                assert(spec_aggregate(table@, fields as int) =~= Seq::<(u32, SpecSlot)>::empty());
            }
            Ok(StructLayout { slots })
        },
    }
}

} // verus!
