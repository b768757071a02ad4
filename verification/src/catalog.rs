//! The catalog builder: one sequential pass over the type table, picking
//! every class whose name contains the filter (case-insensitively) and
//! recording its byte size, or its size together with its field layout.

use vstd::prelude::*;

use crate::aggregate::aggregate_at;
use crate::aggregate::spec_aggregate;
use crate::aggregate::spec_members_ok;
use crate::aggregate::spec_violation_at;
use crate::aggregate::AggregateError;
use crate::aggregate::SpecSlot;
use crate::aggregate::StructLayout;
use crate::table::record_wf;
use crate::table::TypeRecord;
use crate::table::TypeTable;
use crate::textfmt::contains_ci;
use crate::textfmt::spec_contains;
use crate::textfmt::spec_lower;

verus! {

/// What the catalog records for one matching class: its byte size alone, or
/// its size together with the offset-keyed layout of its fields.
pub enum CatalogEntry {
    Size { size: u32 },
    Full { size: u32, layout: StructLayout },
}

/// The mathematical image of a catalog entry.
pub ghost enum SpecEntry {
    Size { size: u32 },
    Full { size: u32, layout: Seq<(u32, SpecSlot)> },
}

/// The image of an executable catalog entry.
pub open spec fn entry_view(e: CatalogEntry) -> SpecEntry {
    match e {
        CatalogEntry::Size { size } => SpecEntry::Size { size },
        CatalogEntry::Full { size, layout } => SpecEntry::Full { size, layout: layout@ },
    }
}

/// Some entry of `c` carries the name `name`.
pub open spec fn spec_has_name(c: Seq<(Seq<char>, SpecEntry)>, name: Seq<char>) -> bool {
    exists|i: int| 0 <= i < c.len() && c[i].0 == name
}

/// The position of the entry named `name`; meaningful when names are unique
/// and `spec_has_name` holds.
pub open spec fn spec_name_index(c: Seq<(Seq<char>, SpecEntry)>, name: Seq<char>) -> int {
    choose|i: int| 0 <= i < c.len() && c[i].0 == name
}

/// No two entries share a name.
pub open spec fn unique_names(c: Seq<(Seq<char>, SpecEntry)>) -> bool {
    forall|i: int, j: int| 0 <= i < j < c.len() ==> c[i].0 != c[j].0
}

/// `name` bound to `e` in the catalog: a fresh name is appended, a name seen
/// before keeps its position and has its entry replaced.
pub open spec fn spec_catalog_insert(
    c: Seq<(Seq<char>, SpecEntry)>,
    name: Seq<char>,
    e: SpecEntry,
) -> Seq<(Seq<char>, SpecEntry)> {
    if spec_has_name(c, name) {
        c.update(spec_name_index(c, name), (name, e))
    } else {
        c.push((name, e))
    }
}

/// The record at `idx` folded into the catalog: a class whose name contains
/// the (already lower-cased) filter is recorded, every other record leaves
/// the catalog unchanged.  With `want_layouts`, a class without a field list
/// is skipped.
pub open spec fn spec_build_step(
    t: Seq<TypeRecord>,
    c: Seq<(Seq<char>, SpecEntry)>,
    idx: int,
    filter: Seq<char>,
    want_layouts: bool,
) -> Seq<(Seq<char>, SpecEntry)> {
    if 0 <= idx < t.len() {
        match t[idx] {
            TypeRecord::Class { name, size, fields } => {
                if spec_contains(spec_lower(name@), spec_lower(filter)) {
                    if !want_layouts {
                        spec_catalog_insert(c, name@, SpecEntry::Size { size })
                    } else {
                        match fields {
                            Some(f) => spec_catalog_insert(
                                c,
                                name@,
                                SpecEntry::Full { size, layout: spec_aggregate(t, f as int) },
                            ),
                            None => c,
                        }
                    }
                } else {
                    c
                }
            },
            _ => c,
        }
    } else {
        c
    }
}

/// The catalog after the first `n` records of the table.
pub open spec fn spec_build_upto(
    t: Seq<TypeRecord>,
    filter: Seq<char>,
    want_layouts: bool,
    n: int,
) -> Seq<(Seq<char>, SpecEntry)>
    decreases n,
{
    if n <= 0 {
        Seq::<(Seq<char>, SpecEntry)>::empty()
    } else {
        spec_build_step(t, spec_build_upto(t, filter, want_layouts, n - 1), n - 1, filter, want_layouts)
    }
}

/// The catalog of the whole table.
pub open spec fn spec_build(t: Seq<TypeRecord>, filter: Seq<char>, want_layouts: bool) -> Seq<
    (Seq<char>, SpecEntry),
> {
    spec_build_upto(t, filter, want_layouts, t.len() as int)
}

/// The record at `f` is a field list whose walk hits the splice violation.
pub open spec fn spec_fieldlist_violation(t: Seq<TypeRecord>, f: int) -> bool {
    0 <= f < t.len() && (t[f] matches TypeRecord::FieldList { members } && exists|j: int|
        spec_violation_at(t, members@, j))
}

/// The record at `idx` makes the walk fail: a class whose name contains the
/// filter and whose field-list walk hits the splice violation.  Only the
/// layout variant aggregates, so the size-only walk never fails.
pub open spec fn spec_build_fails_at(
    t: Seq<TypeRecord>,
    filter: Seq<char>,
    want_layouts: bool,
    idx: int,
) -> bool {
    want_layouts && 0 <= idx < t.len() && match t[idx] {
        TypeRecord::Class { name, fields, .. } => spec_contains(
            spec_lower(name@),
            spec_lower(filter),
        ) && match fields {
            Some(f) => spec_fieldlist_violation(t, f as int),
            None => false,
        },
        _ => false,
    }
}

/// `e` is the failure the walk reports for the table: the record at `idx` is
/// the first failing class, and `e` carries the byte offset of the first
/// violating member of its field list.
pub open spec fn spec_build_error(
    t: Seq<TypeRecord>,
    filter: Seq<char>,
    idx: int,
    e: AggregateError,
) -> bool {
    &&& spec_build_fails_at(t, filter, true, idx)
    &&& forall|i: int| 0 <= i < idx ==> !spec_build_fails_at(t, filter, true, i)
    &&& match t[idx] {
        TypeRecord::Class { fields: Some(f), .. } => match t[f as int] {
            TypeRecord::FieldList { members } => exists|j: int|
                spec_violation_at(t, members@, j) && (forall|k: int|
                    0 <= k < j ==> !spec_violation_at(t, members@, k)) && e == (
                AggregateError::SpliceWithoutBlock { offset: members@[j].offset }),
            _ => false,
        },
        _ => false,
    }
}

/// The name-keyed result of one filtered scan of a type table, in first-match
/// order.
pub struct Catalog {
    entries: Vec<(String, CatalogEntry)>,
}

impl View for Catalog {
    type V = Seq<(Seq<char>, SpecEntry)>;

    closed spec fn view(&self) -> Seq<(Seq<char>, SpecEntry)> {
        self.entries@.map_values(|p: (String, CatalogEntry)| (p.0@, entry_view(p.1)))
    }
}

impl Catalog {
    /// The number of catalogued classes.
    pub fn len(&self) -> (r: usize)
        ensures
            r == self@.len(),
    {
        self.entries.len()
    }

    /// The class name of the entry at position `i`.
    pub fn name_at(&self, i: usize) -> (r: &String)
        requires
            i < self@.len(),
        ensures
            r@ == self@[i as int].0,
    {
        &self.entries[i].0
    }

    /// The entry at position `i`.
    pub fn entry_at(&self, i: usize) -> (r: &CatalogEntry)
        requires
            i < self@.len(),
        ensures
            entry_view(*r) == self@[i as int].1,
    {
        &self.entries[i].1
    }

    /// The entry recorded for the class named `name`, if any.
    pub fn get(&self, name: &str) -> (r: Option<&CatalogEntry>)
        ensures
            match r {
                Some(e) => exists|i: int|
                    0 <= i < self@.len() && self@[i].0 == name@ && self@[i].1 == entry_view(*e),
                None => !spec_has_name(self@, name@),
            },
    {
        let owned = name.to_owned();
        let mut i: usize = 0;
        while i < self.entries.len()
            invariant
                owned@ == name@,
                i <= self@.len(),
                self@.len() == self.entries@.len(),
                forall|k: int| 0 <= k < i ==> self@[k].0 != name@,
            decreases self@.len() - i,
        {
            if self.entries[i].0.eq(&owned) {
                proof {
                    assert(self@[i as int] == (
                        self.entries@[i as int].0@,
                        entry_view(self.entries@[i as int].1),
                    ));
                }
                return Some(&self.entries[i].1);
            }
            i = i + 1;
        }
        None
    }
}

fn find_entry(entries: &Vec<(String, CatalogEntry)>, name: &String) -> (r: Option<usize>)
    ensures
        match r {
            Some(k) => k < entries@.len() && entries@[k as int].0@ == name@,
            None => forall|i: int| 0 <= i < entries@.len() ==> entries@[i].0@ != name@,
        },
{
    let mut i: usize = 0;
    while i < entries.len()
        invariant
            i <= entries@.len(),
            forall|k: int| 0 <= k < i ==> entries@[k].0@ != name@,
        decreases entries@.len() - i,
    {
        if entries[i].0.eq(name) {
            return Some(i);
        }
        i = i + 1;
    }
    None
}

fn catalog_insert(entries: &mut Vec<(String, CatalogEntry)>, name: String, e: CatalogEntry)
    requires
        unique_names(old(entries)@.map_values(|p: (String, CatalogEntry)| (p.0@, entry_view(p.1)))),
    ensures
        final(entries)@.map_values(|p: (String, CatalogEntry)| (p.0@, entry_view(p.1)))
            == spec_catalog_insert(
            old(entries)@.map_values(|p: (String, CatalogEntry)| (p.0@, entry_view(p.1))),
            name@,
            entry_view(e),
        ),
        unique_names(final(entries)@.map_values(|p: (String, CatalogEntry)| (p.0@, entry_view(p.1)))),
{
    let ghost cv = entries@.map_values(|p: (String, CatalogEntry)| (p.0@, entry_view(p.1)));
    match find_entry(entries, &name) {
        Some(k) => {
            proof {
                assert(cv[k as int].0 == name@);
                assert(spec_has_name(cv, name@));
                let ki = spec_name_index(cv, name@);
                assert(0 <= ki < cv.len() && cv[ki].0 == name@);
                assert(ki == k as int);
            }
            entries[k] = (name, e);
            proof {
                assert(entries@.map_values(|p: (String, CatalogEntry)| (p.0@, entry_view(p.1)))
                    =~= spec_catalog_insert(cv, name@, entry_view(e)));
            }
        },
        None => {
            proof {
                assert(!spec_has_name(cv, name@));
            }
            entries.push((name, e));
            proof {
                assert(entries@.map_values(|p: (String, CatalogEntry)| (p.0@, entry_view(p.1)))
                    =~= spec_catalog_insert(cv, name@, entry_view(e)));
            }
        },
    }
}

/// One filtered pass over the whole table.  Every class whose name contains
/// `filter` (ASCII case-insensitively) is recorded: by byte size alone
/// without `want_layouts`, and by size and aggregated field layout with it,
/// in which case a class carrying no field list is skipped.  The walk fails,
/// fatally, at the first matching class whose field-list walk hits the
/// splice violation.
pub fn build_catalog(table: &TypeTable, filter: &str, want_layouts: bool) -> (r: Result<
    Catalog,
    AggregateError,
>)
    requires
        table.wf(),
    ensures
        match r {
            Ok(c) => c@ == spec_build(table@, filter@, want_layouts) && unique_names(c@) && forall|
                i: int,
            | !spec_build_fails_at(table@, filter@, want_layouts, i),
            Err(e) => want_layouts && exists|i: int| spec_build_error(table@, filter@, i, e),
        },
{
    let mut entries: Vec<(String, CatalogEntry)> = Vec::new();
    let ghost t = table@;
    let n = table.len();
    proof {
        assert(entries@.map_values(|p: (String, CatalogEntry)| (p.0@, entry_view(p.1)))
            =~= spec_build_upto(t, filter@, want_layouts, 0int));
    }
    let mut i: usize = 0;
    while i < n
        invariant
            table.wf(),
            table@ == t,
            n == t.len(),
            i <= n,
            entries@.map_values(|p: (String, CatalogEntry)| (p.0@, entry_view(p.1)))
                == spec_build_upto(t, filter@, want_layouts, i as int),
            unique_names(entries@.map_values(|p: (String, CatalogEntry)| (p.0@, entry_view(p.1)))),
            forall|i2: int| 0 <= i2 < i ==> !spec_build_fails_at(t, filter@, want_layouts, i2),
        decreases n - i,
    {
        match table.get(i) {
            TypeRecord::Class { name, size, fields } => {
                if contains_ci(name.as_str(), filter) {
                    if !want_layouts {
                        catalog_insert(
                            &mut entries,
                            name.clone(),
                            CatalogEntry::Size { size: *size },
                        );
                    } else {
                        match fields {
                            Some(f) => {
                                proof {
                                    assert(record_wf(t[i as int], i as int));
                                }
                                match aggregate_at(table, *f) {
                                    Ok(layout) => {
                                        proof {
                                            assert(!spec_fieldlist_violation(t, *f as int));
                                        }
                                        catalog_insert(
                                            &mut entries,
                                            name.clone(),
                                            CatalogEntry::Full { size: *size, layout },
                                        );
                                    },
                                    Err(e) => {
                                        proof {
                                            assert(spec_fieldlist_violation(t, *f as int));
                                            assert(spec_build_fails_at(t, filter@, true, i as int));
                                            assert(spec_build_error(t, filter@, i as int, e));
                                        }
                                        return Err(e);
                                    },
                                }
                            },
                            None => {},
                        }
                    }
                }
            },
            _ => {},
        }
        i = i + 1;
    }
    Ok(Catalog { entries })
}

/// Record the byte size of every class whose name contains `filter`,
/// case-insensitively.  The size-only walk aggregates nothing and cannot
/// fail.
pub fn get_structure_length(table: &TypeTable, filter: &str) -> (r: Catalog)
    requires
        table.wf(),
    ensures
        r@ == spec_build(table@, filter@, false),
        unique_names(r@),
{
    match build_catalog(table, filter, false) {
        Ok(c) => c,
        Err(_) => {
            proof {
                assert(false);
            }
            Catalog { entries: Vec::new() }
        },
    }
}

/// Record the byte size and the offset-keyed field layout of every class
/// whose name contains `filter`, case-insensitively.  Fails, fatally, at the
/// first matching class whose field-list walk hits the splice violation.
pub fn get_structure(table: &TypeTable, filter: &str) -> (r: Result<Catalog, AggregateError>)
    requires
        table.wf(),
    ensures
        match r {
            Ok(c) => c@ == spec_build(table@, filter@, true) && unique_names(c@) && forall|i: int|
                !spec_build_fails_at(table@, filter@, true, i),
            Err(e) => exists|i: int| spec_build_error(table@, filter@, i, e),
        },
{
    build_catalog(table, filter, true)
}

} // verus!
