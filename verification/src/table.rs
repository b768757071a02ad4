//! The plain model of a type stream: records, members, and the indexed table
//! the renderer resolves type indices against.

use vstd::prelude::*;

use crate::kinds::PrimitiveKind;

verus! {

/// A reference to one record of a type table.
pub type TypeIndex = usize;

/// One structure member of a field list: its name, the index of its type,
/// and the byte offset it is laid out at.
pub struct Member {
    pub name: String,
    pub field_type: TypeIndex,
    pub offset: u32,
}

/// One decoded record of a type stream.
///
/// Only the shapes the renderer reads are modelled; every other record kind
/// is `Other` and renders to a sentinel diagnostic string.
pub enum TypeRecord {
    Primitive { kind: PrimitiveKind },
    Pointer { underlying: TypeIndex, is_const: bool },
    Modifier { underlying: TypeIndex, is_const: bool, is_volatile: bool, is_unaligned: bool },
    Array { element_type: TypeIndex, indexing_type: TypeIndex, dimensions: Vec<u32> },
    Bitfield { underlying: TypeIndex, length: u32, position: u32 },
    Class { name: String, size: u32, fields: Option<TypeIndex> },
    Union { name: String, size: u32 },
    Procedure { return_type: Option<TypeIndex>, argument_list: TypeIndex },
    ArgumentList { arguments: Vec<TypeIndex> },
    FieldList { members: Vec<Member> },
    Other,
}

/// Every member of a field list names a type below `bound`.
pub open spec fn members_wf(members: Seq<Member>, bound: int) -> bool {
    forall|i: int| 0 <= i < members.len() ==> (#[trigger] members[i]).field_type < bound
}

/// Every index of an argument list lies below `bound`.
pub open spec fn indices_wf(args: Seq<TypeIndex>, bound: int) -> bool {
    forall|i: int| 0 <= i < args.len() ==> (#[trigger] args[i]) < bound
}

/// Every type index a record mentions lies below `bound`.
///
/// A type stream defines each record in terms of earlier records only, so a
/// record at position `i` of a well-formed table satisfies `record_wf(.., i)`.
pub open spec fn record_wf(rec: TypeRecord, bound: int) -> bool {
    match rec {
        TypeRecord::Primitive { .. } => true,
        TypeRecord::Pointer { underlying, .. } => underlying < bound,
        TypeRecord::Modifier { underlying, .. } => underlying < bound,
        TypeRecord::Array { element_type, indexing_type, .. } => element_type < bound
            && indexing_type < bound,
        TypeRecord::Bitfield { underlying, .. } => underlying < bound,
        TypeRecord::Class { fields, .. } => match fields {
            Some(f) => f < bound,
            None => true,
        },
        TypeRecord::Union { .. } => true,
        TypeRecord::Procedure { return_type, argument_list } => argument_list < bound
            && match return_type {
            Some(r) => r < bound,
            None => true,
        },
        TypeRecord::ArgumentList { arguments } => indices_wf(arguments@, bound),
        TypeRecord::FieldList { members } => members_wf(members@, bound),
        TypeRecord::Other => true,
    }
}

/// Every record of the table references earlier records only.
pub open spec fn table_wf(t: Seq<TypeRecord>) -> bool {
    forall|i: int| 0 <= i < t.len() ==> record_wf(#[trigger] t[i], i)
}

/// A decoded type stream: one record per type index, in stream order.
pub struct TypeTable {
    records: Vec<TypeRecord>,
}

impl View for TypeTable {
    type V = Seq<TypeRecord>;

    closed spec fn view(&self) -> Seq<TypeRecord> {
        self.records@
    }
}

fn indices_below(v: &Vec<TypeIndex>, bound: usize) -> (r: bool)
    ensures
        r == indices_wf(v@, bound as int),
{
    let mut i: usize = 0;
    while i < v.len()
        invariant
            i <= v@.len(),
            forall|k: int| 0 <= k < i ==> v@[k] < bound,
        decreases v@.len() - i,
    {
        if v[i] >= bound {
            return false;
        }
        i = i + 1;
    }
    true
}

fn member_types_below(v: &Vec<Member>, bound: usize) -> (r: bool)
    ensures
        r == members_wf(v@, bound as int),
{
    let mut i: usize = 0;
    while i < v.len()
        invariant
            i <= v@.len(),
            forall|k: int| 0 <= k < i ==> v@[k].field_type < bound,
        decreases v@.len() - i,
    {
        if v[i].field_type >= bound {
            return false;
        }
        i = i + 1;
    }
    true
}

fn record_indices_below(rec: &TypeRecord, bound: usize) -> (r: bool)
    ensures
        r == record_wf(*rec, bound as int),
{
    match rec {
        TypeRecord::Primitive { .. } => true,
        TypeRecord::Pointer { underlying, .. } => *underlying < bound,
        TypeRecord::Modifier { underlying, .. } => *underlying < bound,
        TypeRecord::Array { element_type, indexing_type, .. } => *element_type < bound
            && *indexing_type < bound,
        TypeRecord::Bitfield { underlying, .. } => *underlying < bound,
        TypeRecord::Class { fields, .. } => match fields {
            Some(f) => *f < bound,
            None => true,
        },
        TypeRecord::Union { .. } => true,
        TypeRecord::Procedure { return_type, argument_list } => *argument_list < bound
            && match return_type {
            Some(r) => *r < bound,
            None => true,
        },
        TypeRecord::ArgumentList { arguments } => indices_below(arguments, bound),
        TypeRecord::FieldList { members } => member_types_below(members, bound),
        TypeRecord::Other => true,
    }
}

impl TypeTable {
    /// Every record of the table references earlier records only.
    pub open spec fn wf(&self) -> bool {
        table_wf(self@)
    }

    /// An empty table.
    pub fn new() -> (r: TypeTable)
        ensures
            r@ == Seq::<TypeRecord>::empty(),
            r.wf(),
    {
        TypeTable { records: Vec::new() }
    }

    /// The number of records.
    pub fn len(&self) -> (r: usize)
        ensures
            r == self@.len(),
    {
        self.records.len()
    }

    /// Append the next record of the stream.  The record is accepted exactly
    /// when it references already-present records only; a record that looks
    /// forward signals a corrupt stream and is refused, leaving the table
    /// unchanged.
    pub fn push_record(&mut self, rec: TypeRecord) -> (ok: bool)
        requires
            old(self).wf(),
        ensures
            ok == record_wf(rec, old(self)@.len() as int),
            ok ==> final(self)@ == old(self)@.push(rec),
            !ok ==> final(self)@ == old(self)@,
            final(self).wf(),
    {
        if record_indices_below(&rec, self.records.len()) {
            self.records.push(rec);
            true
        } else {
            false
        }
    }

    /// The record at `idx`.
    pub fn get(&self, idx: TypeIndex) -> (r: &TypeRecord)
        requires
            idx < self@.len(),
        ensures
            *r == self@[idx as int],
    {
        &self.records[idx]
    }
}

} // verus!
