//! Tests of the field aggregator: non-colliding offsets, union wrapping,
//! bit-field packing, and name preservation.

use pymspdb::{AggregateError, Member, PrimitiveKind, StructLayout, TypeRecord, TypeTable};

fn table_with_members(members: Vec<Member>) -> TypeTable {
    let mut t = TypeTable::new();
    assert!(t.push_record(TypeRecord::Primitive { kind: PrimitiveKind::UInt32 }));
    assert!(t.push_record(TypeRecord::FieldList { members }));
    t
}

fn member(name: &str, field_type: usize, offset: u32) -> Member {
    Member { name: name.to_string(), field_type, offset }
}

fn layout_of(t: &TypeTable, fields: usize) -> StructLayout {
    pymspdb::aggregate(t, fields).unwrap()
}

#[test]
fn distinct_offsets_map_independently() {
    let t = table_with_members(vec![member("a", 0, 0), member("b", 0, 4), member("c", 0, 8)]);
    let l = layout_of(&t, 1);
    assert_eq!(l.len(), 3);
    assert_eq!(l.offset_at(0), 0);
    assert_eq!(l.name_at(0), "a");
    assert_eq!(l.text_at(0), "UINT32 a;");
    assert_eq!(l.offset_at(1), 4);
    assert_eq!(l.name_at(1), "b");
    assert_eq!(l.text_at(1), "UINT32 b;");
    assert_eq!(l.offset_at(2), 8);
    assert_eq!(l.name_at(2), "c");
    assert_eq!(l.text_at(2), "UINT32 c;");
}

#[test]
fn distinct_offsets_order_does_not_matter() {
    let t1 = table_with_members(vec![member("a", 0, 0), member("b", 0, 4)]);
    let t2 = table_with_members(vec![member("b", 0, 4), member("a", 0, 0)]);
    let l1 = layout_of(&t1, 1);
    let l2 = layout_of(&t2, 1);
    assert_eq!(l1.len(), 2);
    assert_eq!(l2.len(), 2);
    for off in [0u32, 4u32] {
        let s1 = l1.get(off).unwrap();
        let s2 = l2.get(off).unwrap();
        assert_eq!(s1.name, s2.name);
        assert_eq!(s1.text, s2.text);
    }
}

#[test]
fn union_wrap_of_two_flat_members() {
    let t = table_with_members(vec![member("a", 0, 0), member("b", 0, 0)]);
    let l = layout_of(&t, 1);
    assert_eq!(l.len(), 1);
    assert_eq!(l.offset_at(0), 0);
    assert_eq!(l.text_at(0), "union {\nUINT32 a;\nUINT32 b;;\n}");
}

#[test]
fn three_bitfields_pack_into_one_block() {
    let mut t = TypeTable::new();
    assert!(t.push_record(TypeRecord::Primitive { kind: PrimitiveKind::UInt32 }));
    assert!(t.push_record(TypeRecord::Bitfield { underlying: 0, length: 3, position: 0 }));
    assert!(t.push_record(TypeRecord::Bitfield { underlying: 0, length: 3, position: 3 }));
    assert!(t.push_record(TypeRecord::Bitfield { underlying: 0, length: 2, position: 6 }));
    assert!(t.push_record(TypeRecord::FieldList {
        members: vec![member("a", 1, 0), member("b", 2, 0), member("c", 3, 0)],
    }));
    let l = layout_of(&t, 4);
    assert_eq!(l.len(), 1);
    assert_eq!(l.offset_at(0), 0);
    assert_eq!(
        l.text_at(0),
        "struct {\nUINT32 (0x3) - 0:0x0 a;\nUINT32 (0x3) - 3:0x3 b;\nUINT32 (0x2) - 6:0x6 c;\n}"
    );
    let lines: Vec<&str> = l.text_at(0).split('\n').collect();
    assert_eq!(lines.len(), 5);
    assert!(lines[1].contains("(0x3) - 0:0x0"));
    assert!(lines[2].contains("(0x3) - 3:0x3"));
    assert!(lines[3].contains("(0x2) - 6:0x6"));
}

#[test]
fn name_at_colliding_offset_is_first_member_seen() {
    let t = table_with_members(vec![
        member("first", 0, 0),
        member("second", 0, 0),
        member("third", 0, 0),
    ]);
    let l = layout_of(&t, 1);
    assert_eq!(l.len(), 1);
    assert_eq!(l.name_at(0), "first");
    assert!(l.text_at(0).contains("first"));
    assert!(l.text_at(0).contains("second"));
    assert!(l.text_at(0).contains("third"));
}

#[test]
fn flat_member_joins_existing_block() {
    let mut t = TypeTable::new();
    assert!(t.push_record(TypeRecord::Primitive { kind: PrimitiveKind::UInt32 }));
    assert!(t.push_record(TypeRecord::Bitfield { underlying: 0, length: 3, position: 0 }));
    assert!(t.push_record(TypeRecord::FieldList {
        members: vec![member("bits", 1, 0), member("raw", 0, 0)],
    }));
    let l = layout_of(&t, 2);
    assert_eq!(l.len(), 1);
    assert_eq!(
        l.text_at(0),
        "struct {\nUINT32 (0x3) - 0:0x0 bits;\nUINT32 raw;;\n}"
    );
}

#[test]
fn aggregate_of_non_field_list_is_empty() {
    let mut t = TypeTable::new();
    assert!(t.push_record(TypeRecord::Primitive { kind: PrimitiveKind::UInt32 }));
    let l = layout_of(&t, 0);
    assert_eq!(l.len(), 0);
    assert!(l.get(0).is_none());
}

#[test]
fn aggregate_of_empty_field_list_is_empty() {
    let t = table_with_members(vec![]);
    let l = layout_of(&t, 1);
    assert_eq!(l.len(), 0);
}

#[test]
fn aggregate_out_of_range_fails() {
    let t = table_with_members(vec![]);
    assert!(matches!(
        pymspdb::aggregate(&t, 7),
        Err(AggregateError::Unresolved { index: 7 })
    ));
}

#[test]
fn continuing_bitfield_at_fresh_offset_fails_aggregation() {
    let mut t = TypeTable::new();
    assert!(t.push_record(TypeRecord::Primitive { kind: PrimitiveKind::UInt32 }));
    assert!(t.push_record(TypeRecord::Bitfield { underlying: 0, length: 3, position: 3 }));
    assert!(t.push_record(TypeRecord::FieldList { members: vec![member("b", 1, 12)] }));
    assert!(matches!(
        pymspdb::aggregate(&t, 2),
        Err(AggregateError::SpliceWithoutBlock { offset: 12 })
    ));
}
