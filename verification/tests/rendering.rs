//! Tests of the declarator renderer on concrete type tables.

use pymspdb::{Member, PrimitiveKind, ResolveError, TypeData, TypeRecord, TypeTable};

fn table_of(records: Vec<TypeRecord>) -> TypeTable {
    let mut t = TypeTable::new();
    for r in records {
        assert!(t.push_record(r));
    }
    t
}

fn u32_table() -> TypeTable {
    table_of(vec![TypeRecord::Primitive { kind: PrimitiveKind::UInt32 }])
}

#[test]
fn primitive_with_name() {
    let t = u32_table();
    let (kind, text) = pymspdb::render(&t, 0, Some("a"), None).unwrap();
    assert_eq!(kind, TypeData::Primitive);
    assert_eq!(text, "UINT32 a;");
}

#[test]
fn primitive_without_name() {
    let t = u32_table();
    let (kind, text) = pymspdb::render(&t, 0, None, None).unwrap();
    assert_eq!(kind, TypeData::Primitive);
    assert_eq!(text, "UINT32");
}

#[test]
fn pointer_const_with_name() {
    let t = table_of(vec![
        TypeRecord::Primitive { kind: PrimitiveKind::UInt32 },
        TypeRecord::Pointer { underlying: 0, is_const: true },
    ]);
    let (kind, text) = pymspdb::render(&t, 1, Some("p"), None).unwrap();
    assert_eq!(kind, TypeData::Pointer);
    assert_eq!(text, "const UINT32 *p;");
}

#[test]
fn pointer_without_name() {
    let t = table_of(vec![
        TypeRecord::Primitive { kind: PrimitiveKind::UInt32 },
        TypeRecord::Pointer { underlying: 0, is_const: false },
    ]);
    let (_, text) = pymspdb::render(&t, 1, None, None).unwrap();
    assert_eq!(text, "UINT32*");
}

#[test]
fn modifier_all_qualifiers() {
    let t = table_of(vec![
        TypeRecord::Primitive { kind: PrimitiveKind::UInt32 },
        TypeRecord::Modifier { underlying: 0, is_const: true, is_volatile: true, is_unaligned: true },
    ]);
    let (kind, text) = pymspdb::render(&t, 1, Some("x"), None).unwrap();
    assert_eq!(kind, TypeData::Modifier);
    assert_eq!(text, "const volatile unaligned UINT32 x;");
}

#[test]
fn array_with_name() {
    let t = table_of(vec![
        TypeRecord::Primitive { kind: PrimitiveKind::UInt32 },
        TypeRecord::Array { element_type: 0, indexing_type: 0, dimensions: vec![16, 64] },
    ]);
    let (kind, text) = pymspdb::render(&t, 1, Some("arr"), None).unwrap();
    assert_eq!(kind, TypeData::Array);
    assert_eq!(text, "UINT32 [16, 64] arr (Index type: UINT32);");
}

#[test]
fn array_without_name() {
    let t = table_of(vec![
        TypeRecord::Primitive { kind: PrimitiveKind::UInt32 },
        TypeRecord::Array { element_type: 0, indexing_type: 0, dimensions: vec![8] },
    ]);
    let (_, text) = pymspdb::render(&t, 1, None, None).unwrap();
    assert_eq!(text, "UINT32 [8] (Index type: UINT32)");
}

#[test]
fn class_reference_member() {
    let t = table_of(vec![TypeRecord::Class {
        name: "FOO".to_string(),
        size: 8,
        fields: None,
    }]);
    let (kind, text) = pymspdb::render(&t, 0, Some("f"), None).unwrap();
    assert_eq!(kind, TypeData::Class);
    assert_eq!(text, "struct FOO f;");
    let (_, bare) = pymspdb::render(&t, 0, None, None).unwrap();
    assert_eq!(bare, "struct FOO");
}

#[test]
fn union_reference_member() {
    let t = table_of(vec![TypeRecord::Union { name: "BAR".to_string(), size: 4 }]);
    let (kind, text) = pymspdb::render(&t, 0, Some("u"), None).unwrap();
    assert_eq!(kind, TypeData::Union);
    assert_eq!(text, "union BAR u;");
    let (_, bare) = pymspdb::render(&t, 0, None, None).unwrap();
    assert_eq!(bare, "union BAR;");
}

#[test]
fn procedure_with_return_and_name() {
    let t = table_of(vec![
        TypeRecord::Primitive { kind: PrimitiveKind::UInt32 },
        TypeRecord::Primitive { kind: PrimitiveKind::Bool8 },
        TypeRecord::ArgumentList { arguments: vec![0, 1] },
        TypeRecord::Procedure { return_type: Some(0), argument_list: 2 },
    ]);
    let (kind, text) = pymspdb::render(&t, 3, Some("f"), None).unwrap();
    assert_eq!(kind, TypeData::Procedure);
    assert_eq!(text, "UINT32 f(UINT32, BOOL8)");
}

#[test]
fn procedure_without_name_or_return() {
    let t = table_of(vec![
        TypeRecord::Primitive { kind: PrimitiveKind::UInt32 },
        TypeRecord::ArgumentList { arguments: vec![0] },
        TypeRecord::Procedure { return_type: None, argument_list: 1 },
    ]);
    let (_, text) = pymspdb::render(&t, 2, None, None).unwrap();
    assert_eq!(text, "(UINT32)");
}

#[test]
fn empty_argument_list_renders_parens() {
    let t = table_of(vec![
        TypeRecord::ArgumentList { arguments: vec![] },
        TypeRecord::Procedure { return_type: None, argument_list: 0 },
    ]);
    let (kind, text) = pymspdb::render(&t, 0, None, None).unwrap();
    assert_eq!(kind, TypeData::ArgumentList);
    assert_eq!(text, "()");
    let (_, proc_text) = pymspdb::render(&t, 1, Some("f"), None).unwrap();
    assert_eq!(proc_text, "f()");
}

#[test]
fn bitfield_position_zero() {
    let t = table_of(vec![
        TypeRecord::Primitive { kind: PrimitiveKind::UInt32 },
        TypeRecord::Bitfield { underlying: 0, length: 3, position: 0 },
    ]);
    let (kind, text) = pymspdb::render(&t, 1, Some("a"), None).unwrap();
    assert_eq!(kind, TypeData::Bitfield);
    assert_eq!(text, "struct {\nUINT32 (0x3) - 0:0x0 a;\n}");
}

#[test]
fn bitfield_position_zero_unnamed() {
    let t = table_of(vec![
        TypeRecord::Primitive { kind: PrimitiveKind::UInt32 },
        TypeRecord::Bitfield { underlying: 0, length: 3, position: 0 },
    ]);
    let (_, text) = pymspdb::render(&t, 1, None, None).unwrap();
    assert_eq!(text, "struct {\nUINT32 (0x3) - 0:0x0;\n}");
}

#[test]
fn bitfield_wide_length_and_position_in_hex() {
    let t = table_of(vec![
        TypeRecord::Primitive { kind: PrimitiveKind::UInt64 },
        TypeRecord::Bitfield { underlying: 0, length: 31, position: 0 },
        TypeRecord::Bitfield { underlying: 0, length: 5, position: 12 },
    ]);
    let (_, opened) = pymspdb::render(&t, 1, Some("lo"), None).unwrap();
    assert_eq!(opened, "struct {\nUINT64 (0x1f) - 0:0x0 lo;\n}");
    let (_, spliced) = pymspdb::render(&t, 2, Some("hi"), Some(opened.as_str())).unwrap();
    assert_eq!(
        spliced,
        "struct {\nUINT64 (0x1f) - 0:0x0 lo;\nUINT64 (0x5) - 12:0xc hi;\n}"
    );
}

#[test]
fn continuing_bitfield_without_previous_text_is_empty() {
    let t = table_of(vec![
        TypeRecord::Primitive { kind: PrimitiveKind::UInt32 },
        TypeRecord::Bitfield { underlying: 0, length: 3, position: 3 },
    ]);
    let (kind, text) = pymspdb::render(&t, 1, Some("b"), None).unwrap();
    assert_eq!(kind, TypeData::Bitfield);
    assert_eq!(text, "");
}

#[test]
fn unrecognized_record_renders_sentinel() {
    let t = table_of(vec![TypeRecord::Other]);
    let (kind, text) = pymspdb::render(&t, 0, Some("x"), None).unwrap();
    assert_eq!(kind, TypeData::FieldList);
    assert_eq!(text, "** CANNOT FIND TYPE, PLEASE SUBMIT ISSUE ON GITHUB **");
}

#[test]
fn field_list_record_renders_sentinel() {
    let t = table_of(vec![TypeRecord::FieldList { members: vec![] }]);
    let (kind, text) = pymspdb::render(&t, 0, None, None).unwrap();
    assert_eq!(kind, TypeData::FieldList);
    assert_eq!(text, "** CANNOT FIND TYPE, PLEASE SUBMIT ISSUE ON GITHUB **");
}

#[test]
fn render_out_of_range_fails() {
    let t = u32_table();
    assert_eq!(pymspdb::render(&t, 99, None, None), Err(ResolveError { index: 99 }));
}

#[test]
fn forward_reference_is_refused() {
    let mut t = TypeTable::new();
    assert!(!t.push_record(TypeRecord::Pointer { underlying: 0, is_const: false }));
    assert_eq!(t.len(), 0);
    assert!(t.push_record(TypeRecord::Primitive { kind: PrimitiveKind::UInt32 }));
    assert!(t.push_record(TypeRecord::Pointer { underlying: 0, is_const: false }));
    assert!(!t.push_record(TypeRecord::Bitfield { underlying: 7, length: 1, position: 0 }));
    assert!(!t.push_record(TypeRecord::FieldList {
        members: vec![Member { name: "m".to_string(), field_type: 5, offset: 0 }],
    }));
    assert_eq!(t.len(), 2);
}
