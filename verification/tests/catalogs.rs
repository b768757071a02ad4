//! Tests of the catalog builder: case-insensitive filtering, size-only and
//! full-layout variants, and the end-to-end structure walk.

use pymspdb::{AggregateError, CatalogEntry, Member, PrimitiveKind, TypeRecord, TypeTable};

fn member(name: &str, field_type: usize, offset: u32) -> Member {
    Member { name: name.to_string(), field_type, offset }
}

fn class(name: &str, size: u32, fields: Option<usize>) -> TypeRecord {
    TypeRecord::Class { name: name.to_string(), size, fields }
}

#[test]
fn filter_is_case_insensitive() {
    let mut t = TypeTable::new();
    assert!(t.push_record(class("_WORD64", 8, None)));
    assert!(t.push_record(class("wordlist", 16, None)));
    assert!(t.push_record(class("keyboard", 32, None)));
    let c = pymspdb::get_structure_length(&t, "Word");
    assert_eq!(c.len(), 2);
    assert_eq!(c.name_at(0), "_WORD64");
    assert_eq!(c.name_at(1), "wordlist");
    assert!(c.get("keyboard").is_none());
}

#[test]
fn contains_ci_matches_ascii_letters_only_by_case() {
    assert!(pymspdb::contains_ci("_WORD64", "Word"));
    assert!(pymspdb::contains_ci("wordlist", "Word"));
    assert!(!pymspdb::contains_ci("keyboard", "Word"));
    assert!(pymspdb::contains_ci("anything", ""));
    assert!(pymspdb::contains_ci("", ""));
    assert!(!pymspdb::contains_ci("", "x"));
}

#[test]
fn end_to_end_structure_walk() {
    let mut t = TypeTable::new();
    assert!(t.push_record(TypeRecord::Primitive { kind: PrimitiveKind::UInt32 }));
    assert!(t.push_record(TypeRecord::FieldList {
        members: vec![member("a", 0, 0), member("b", 0, 4)],
    }));
    assert!(t.push_record(class("FOO", 8, Some(1))));
    let c = pymspdb::get_structure(&t, "foo").unwrap();
    assert_eq!(c.len(), 1);
    assert_eq!(c.name_at(0), "FOO");
    match c.get("FOO").unwrap() {
        CatalogEntry::Full { size, layout } => {
            assert_eq!(*size, 8);
            assert_eq!(layout.len(), 2);
            let a = layout.get(0).unwrap();
            assert_eq!(a.name, "a");
            assert_eq!(a.text, "UINT32 a;");
            let b = layout.get(4).unwrap();
            assert_eq!(b.name, "b");
            assert_eq!(b.text, "UINT32 b;");
        },
        CatalogEntry::Size { .. } => panic!("expected a full entry"),
    }
}

#[test]
fn length_variant_records_sizes_only() {
    let mut t = TypeTable::new();
    assert!(t.push_record(TypeRecord::Primitive { kind: PrimitiveKind::UInt32 }));
    assert!(t.push_record(TypeRecord::FieldList { members: vec![member("a", 0, 0)] }));
    assert!(t.push_record(class("FOO", 8, Some(1))));
    assert!(t.push_record(class("FOOTER", 24, None)));
    let c = pymspdb::get_structure_length(&t, "foo");
    assert_eq!(c.len(), 2);
    match c.get("FOO").unwrap() {
        CatalogEntry::Size { size } => assert_eq!(*size, 8),
        CatalogEntry::Full { .. } => panic!("expected a size-only entry"),
    }
    match c.get("FOOTER").unwrap() {
        CatalogEntry::Size { size } => assert_eq!(*size, 24),
        CatalogEntry::Full { .. } => panic!("expected a size-only entry"),
    }
}

#[test]
fn layout_variant_skips_classes_without_fields() {
    let mut t = TypeTable::new();
    assert!(t.push_record(TypeRecord::Primitive { kind: PrimitiveKind::UInt32 }));
    assert!(t.push_record(TypeRecord::FieldList { members: vec![member("a", 0, 0)] }));
    assert!(t.push_record(class("FOO", 8, Some(1))));
    assert!(t.push_record(class("FOOTER", 24, None)));
    let c = pymspdb::get_structure(&t, "foo").unwrap();
    assert_eq!(c.len(), 1);
    assert_eq!(c.name_at(0), "FOO");
    assert!(c.get("FOOTER").is_none());
}

#[test]
fn duplicate_class_name_keeps_position_and_replaces_entry() {
    let mut t = TypeTable::new();
    assert!(t.push_record(class("FOO", 8, None)));
    assert!(t.push_record(class("FOP", 12, None)));
    assert!(t.push_record(class("FOO", 16, None)));
    let c = pymspdb::get_structure_length(&t, "fo");
    assert_eq!(c.len(), 2);
    assert_eq!(c.name_at(0), "FOO");
    assert_eq!(c.name_at(1), "FOP");
    match c.get("FOO").unwrap() {
        CatalogEntry::Size { size } => assert_eq!(*size, 16),
        CatalogEntry::Full { .. } => panic!("expected a size-only entry"),
    }
}

#[test]
fn non_class_records_are_ignored() {
    let mut t = TypeTable::new();
    assert!(t.push_record(TypeRecord::Primitive { kind: PrimitiveKind::UInt32 }));
    assert!(t.push_record(TypeRecord::Union { name: "foo_union".to_string(), size: 4 }));
    assert!(t.push_record(TypeRecord::Other));
    let c = pymspdb::get_structure_length(&t, "");
    assert_eq!(c.len(), 0);
}

#[test]
fn empty_table_yields_empty_catalog() {
    let t = TypeTable::new();
    let c = pymspdb::get_structure(&t, "").unwrap();
    assert_eq!(c.len(), 0);
    assert!(c.get("anything").is_none());
}

#[test]
fn structure_walk_fails_on_unspliceable_bitfield() {
    let mut t = TypeTable::new();
    assert!(t.push_record(TypeRecord::Primitive { kind: PrimitiveKind::UInt32 }));
    assert!(t.push_record(TypeRecord::Bitfield { underlying: 0, length: 3, position: 5 }));
    assert!(t.push_record(TypeRecord::FieldList { members: vec![member("stray", 1, 4)] }));
    assert!(t.push_record(class("FOO", 8, Some(2))));
    assert!(matches!(
        pymspdb::get_structure(&t, "foo"),
        Err(AggregateError::SpliceWithoutBlock { offset: 4 })
    ));
    let lengths = pymspdb::get_structure_length(&t, "foo");
    assert_eq!(lengths.len(), 1);
}

#[test]
fn largest_size_is_kept_exactly() {
    let mut t = TypeTable::new();
    assert!(t.push_record(class("BIG", u32::MAX, None)));
    let c = pymspdb::get_structure_length(&t, "big");
    match c.get("BIG").unwrap() {
        CatalogEntry::Size { size } => assert_eq!(*size, u32::MAX),
        CatalogEntry::Full { .. } => panic!("expected a size-only entry"),
    }
}
