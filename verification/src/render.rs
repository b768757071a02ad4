//! The declarator renderer: turns one type record into a C-like declaration
//! string, resolving nested type indices through the table.

use vstd::prelude::*;
use vstd::string::*;

use crate::kinds::spec_kind_token;
use crate::kinds::TypeData;
use crate::table::record_wf;
use crate::table::TypeIndex;
use crate::table::TypeRecord;
use crate::table::TypeTable;
use crate::textfmt::spec_dec;
use crate::textfmt::spec_dims;
use crate::textfmt::spec_hex0x;
use crate::textfmt::dec_text;
use crate::textfmt::dims_text;
use crate::textfmt::hex0x_text;

verus! {

/// The failure of a top-level type-index resolution: the index lies outside
/// the table.  This is fatal to the caller's walk; it is never produced for
/// indices reached through a well-formed table's own records.
#[derive(Debug, Clone, Copy, PartialEq, Eq, Structural)]
pub struct ResolveError {
    pub index: TypeIndex,
}

/// The sentinel text a record of unrecognized shape renders to.
pub open spec fn spec_sentinel_text() -> Seq<char> {
    "** CANNOT FIND TYPE, PLEASE SUBMIT ISSUE ON GITHUB **"@
}

/// The view of an optional borrowed string.
pub open spec fn opt_text(o: Option<&str>) -> Option<Seq<char>> {
    match o {
        Some(s) => Some(s@),
        None => None,
    }
}

/// The `(length) - position:position` annotation of one bit-field line.
pub open spec fn spec_bits_note(length: u32, position: u32) -> Seq<char> {
    " ("@ + spec_hex0x(length as nat) + ") - "@ + spec_dec(position as nat) + ":"@ + spec_hex0x(
        position as nat,
    )
}

/// Rendering of the record a nested type index points at, with no previous
/// text.  Indices that do not point strictly downwards (impossible in a
/// well-formed table) degrade to the sentinel text.
pub open spec fn spec_sub(
    t: Seq<TypeRecord>,
    idx: int,
    j: int,
    name: Option<Seq<char>>,
) -> Seq<char>
    decreases idx, 0int, 0int,
{
    if 0 <= j < idx {
        spec_render(t, j, name, None).1
    } else {
        spec_sentinel_text()
    }
}

/// The comma-separated inside of a rendered argument list.
pub open spec fn spec_args_inner(t: Seq<TypeRecord>, idx: int, args: Seq<TypeIndex>) -> Seq<char>
    decreases idx, 0int, args.len(),
{
    if args.len() == 0 {
        Seq::<char>::empty()
    } else if args.len() == 1 {
        spec_sub(t, idx, args[0] as int, None)
    } else {
        spec_args_inner(t, idx, args.drop_last()) + ", "@ + spec_sub(t, idx, args.last() as int, None)
    }
}

/// What `render` returns: the classification of the record at `idx` and its
/// declaration text, built for the given member name and, for a continuing
/// bit-field, the previously rendered block.
pub open spec fn spec_render(
    t: Seq<TypeRecord>,
    idx: int,
    name: Option<Seq<char>>,
    prev: Option<Seq<char>>,
) -> (TypeData, Seq<char>)
    decreases idx, 1int, 0int,
{
    if !(0 <= idx < t.len()) {
        (TypeData::FieldList, spec_sentinel_text())
    } else {
        match t[idx] {
            TypeRecord::Primitive { kind } => {
                let text = match name {
                    Some(n) => spec_kind_token(kind) + " "@ + n + ";"@,
                    None => spec_kind_token(kind),
                };
                (TypeData::Primitive, text)
            },
            TypeRecord::Pointer { underlying, is_const } => {
                let pre: Seq<char> = if is_const {
                    "const "@
                } else {
                    Seq::<char>::empty()
                };
                let text = match name {
                    Some(n) => pre + spec_sub(t, idx, underlying as int, Some("*"@ + n)),
                    None => pre + spec_sub(t, idx, underlying as int, None) + "*"@,
                };
                (TypeData::Pointer, text)
            },
            TypeRecord::Modifier { underlying, is_const, is_volatile, is_unaligned } => {
                let pre: Seq<char> = (if is_const {
                    "const "@
                } else {
                    Seq::<char>::empty()
                }) + (if is_volatile {
                    "volatile "@
                } else {
                    Seq::<char>::empty()
                }) + (if is_unaligned {
                    "unaligned "@
                } else {
                    Seq::<char>::empty()
                });
                (TypeData::Modifier, pre + spec_sub(t, idx, underlying as int, name))
            },
            TypeRecord::Array { element_type, indexing_type, dimensions } => {
                let elem = spec_sub(t, idx, element_type as int, None);
                let ind = spec_sub(t, idx, indexing_type as int, None);
                let text = match name {
                    Some(n) => elem + " "@ + spec_dims(dimensions@) + " "@ + n + " (Index type: "@
                        + ind + ");"@,
                    None => elem + " "@ + spec_dims(dimensions@) + " (Index type: "@ + ind + ")"@,
                };
                (TypeData::Array, text)
            },
            TypeRecord::Bitfield { underlying, length, position } => {
                let line = spec_sub(t, idx, underlying as int, None) + spec_bits_note(
                    length,
                    position,
                );
                if position == 0 {
                    let text = match name {
                        Some(n) => "struct {\n"@ + line + " "@ + n + ";\n}"@,
                        None => "struct {\n"@ + line + ";\n}"@,
                    };
                    (TypeData::Bitfield, text)
                } else {
                    match prev {
                        Some(p) => {
                            if p.len() >= 3 {
                                let text = match name {
                                    Some(n) => p.take(p.len() - 3) + ";\n"@ + line + " "@ + n
                                        + ";\n}"@,
                                    None => p.take(p.len() - 3) + ";\n"@ + line + ";\n}"@,
                                };
                                (TypeData::Bitfield, text)
                            } else {
                                (TypeData::Bitfield, Seq::<char>::empty())
                            }
                        },
                        None => (TypeData::Bitfield, Seq::<char>::empty()),
                    }
                }
            },
            TypeRecord::Class { name: cname, .. } => {
                let text = match name {
                    Some(n) => "struct "@ + cname@ + " "@ + n + ";"@,
                    None => "struct "@ + cname@,
                };
                (TypeData::Class, text)
            },
            TypeRecord::Union { name: uname, .. } => {
                let text = match name {
                    Some(n) => "union "@ + uname@ + " "@ + n + ";"@,
                    None => "union "@ + uname@ + ";"@,
                };
                (TypeData::Union, text)
            },
            TypeRecord::Procedure { return_type, argument_list } => {
                let ret: Seq<char> = match return_type {
                    Some(rt) => spec_sub(t, idx, rt as int, None) + " "@,
                    None => Seq::<char>::empty(),
                };
                let text = match name {
                    Some(n) => ret + n + spec_sub(t, idx, argument_list as int, Some(n)),
                    None => ret + spec_sub(t, idx, argument_list as int, None),
                };
                (TypeData::Procedure, text)
            },
            TypeRecord::ArgumentList { arguments } => {
                (TypeData::ArgumentList, "("@ + spec_args_inner(t, idx, arguments@) + ")"@)
            },
            TypeRecord::FieldList { .. } => (TypeData::FieldList, spec_sentinel_text()),
            TypeRecord::Other => (TypeData::FieldList, spec_sentinel_text()),
        }
    }
}

fn sentinel_text() -> (r: String)
    ensures
        r@ == spec_sentinel_text(),
{
    String::from_str("** CANNOT FIND TYPE, PLEASE SUBMIT ISSUE ON GITHUB **")
}

fn bits_note(length: u32, position: u32) -> (r: String)
    ensures
        r@ == spec_bits_note(length, position),
{
    let mut s = String::from_str(" (");
    let len_hex = hex0x_text(length);
    s.append(len_hex.as_str());
    s.append(") - ");
    let pos_dec = dec_text(position);
    s.append(pos_dec.as_str());
    s.append(":");
    let pos_hex = hex0x_text(position);
    s.append(pos_hex.as_str());
    s
}

fn render_args(table: &TypeTable, args: &Vec<TypeIndex>, bound: Ghost<int>) -> (r: String)
    requires
        table.wf(),
        0 <= bound@ <= table@.len(),
        forall|i: int| 0 <= i < args@.len() ==> args@[i] < bound@,
    ensures
        r@ == "("@ + spec_args_inner(table@, bound@, args@) + ")"@,
    decreases bound@, 0int,
{
    let mut s = String::from_str("(");
    proof {
        assert(s@ =~= "("@ + spec_args_inner(table@, bound@, args@.take(0int)));
    }
    let mut i: usize = 0;
    while i < args.len()
        invariant
            table.wf(),
            0 <= bound@ <= table@.len(),
            forall|k: int| 0 <= k < args@.len() ==> args@[k] < bound@,
            i <= args@.len(),
            s@ == "("@ + spec_args_inner(table@, bound@, args@.take(i as int)),
        decreases args@.len() - i,
    {
        proof {
            assert(args@.take(i as int + 1).drop_last() =~= args@.take(i as int));
            assert(args@.take(i as int + 1).last() == args@[i as int]);
        }
        if i > 0 {
            s.append(", ");
        }
        let sub = render_at(table, args[i], None, None);
        s.append(sub.1.as_str());
        proof {
            assert(spec_sub(table@, bound@, args@[i as int] as int, None) == sub.1@);
            assert(s@ =~= "("@ + spec_args_inner(table@, bound@, args@.take(i as int + 1)));
        }
        i = i + 1;
    }
    proof {
        assert(args@.take(args@.len() as int) =~= args@);
    }
    s.append(")");
    s
}

/// Render the record at `idx`, which a well-formed table resolves.
pub(crate) fn render_at(table: &TypeTable, idx: TypeIndex, name: Option<&str>, prev: Option<&str>) -> (r: (
    TypeData,
    String,
))
    requires
        table.wf(),
        idx < table@.len(),
    ensures
        r.0 == spec_render(table@, idx as int, opt_text(name), opt_text(prev)).0,
        r.1@ == spec_render(table@, idx as int, opt_text(name), opt_text(prev)).1,
    decreases idx, 1int,
{
    proof {
        assert(record_wf(table@[idx as int], idx as int));
    }
    match table.get(idx) {
        TypeRecord::Primitive { kind } => {
            let mut s = kind.token().to_owned();
            match name {
                Some(n) => {
                    s.append(" ");
                    s.append(n);
                    s.append(";");
                },
                None => {},
            }
            (TypeData::Primitive, s)
        },
        TypeRecord::Pointer { underlying, is_const } => {
            let mut s = if *is_const {
                String::from_str("const ")
            } else {
                String::new()
            };
            match name {
                Some(n) => {
                    let mut starred = String::from_str("*");
                    starred.append(n);
                    let sub = render_at(table, *underlying, Some(starred.as_str()), None);
                    s.append(sub.1.as_str());
                },
                None => {
                    let sub = render_at(table, *underlying, None, None);
                    s.append(sub.1.as_str());
                    s.append("*");
                },
            }
            (TypeData::Pointer, s)
        },
        TypeRecord::Modifier { underlying, is_const, is_volatile, is_unaligned } => {
            let mut s = String::new();
            if *is_const {
                s.append("const ");
            }
            if *is_volatile {
                s.append("volatile ");
            }
            if *is_unaligned {
                s.append("unaligned ");
            }
            let sub = render_at(table, *underlying, name, None);
            s.append(sub.1.as_str());
            (TypeData::Modifier, s)
        },
        TypeRecord::Array { element_type, indexing_type, dimensions } => {
            let elem = render_at(table, *element_type, None, None);
            let ind = render_at(table, *indexing_type, None, None);
            let dims = dims_text(dimensions);
            let mut s = elem.1;
            s.append(" ");
            s.append(dims.as_str());
            match name {
                Some(n) => {
                    s.append(" ");
                    s.append(n);
                    s.append(" (Index type: ");
                    s.append(ind.1.as_str());
                    s.append(");");
                },
                None => {
                    s.append(" (Index type: ");
                    s.append(ind.1.as_str());
                    s.append(")");
                },
            }
            (TypeData::Array, s)
        },
        TypeRecord::Bitfield { underlying, length, position } => {
            let under = render_at(table, *underlying, None, None);
            let note = bits_note(*length, *position);
            let mut line = under.1;
            line.append(note.as_str());
            if *position == 0 {
                let mut s = String::from_str("struct {\n");
                s.append(line.as_str());
                match name {
                    Some(n) => {
                        s.append(" ");
                        s.append(n);
                        s.append(";\n}");
                    },
                    None => {
                        s.append(";\n}");
                    },
                }
                (TypeData::Bitfield, s)
            } else {
                match prev {
                    Some(p) => {
                        let plen = p.unicode_len();
                        if plen >= 3 {
                            let kept = p.substring_char(0, plen - 3);
                            let mut s = kept.to_owned();
                            s.append(";\n");
                            s.append(line.as_str());
                            match name {
                                Some(n) => {
                                    s.append(" ");
                                    s.append(n);
                                    s.append(";\n}");
                                },
                                None => {
                                    s.append(";\n}");
                                },
                            }
                            proof {
                                assert(p@.subrange(0, p@.len() - 3) =~= p@.take(p@.len() - 3));
                            }
                            (TypeData::Bitfield, s)
                        } else {
                            (TypeData::Bitfield, String::new())
                        }
                    },
                    None => (TypeData::Bitfield, String::new()),
                }
            }
        },
        TypeRecord::Class { name: cname, .. } => {
            let mut s = String::from_str("struct ");
            s.append(cname.as_str());
            match name {
                Some(n) => {
                    s.append(" ");
                    s.append(n);
                    s.append(";");
                },
                None => {},
            }
            (TypeData::Class, s)
        },
        TypeRecord::Union { name: uname, .. } => {
            let mut s = String::from_str("union ");
            s.append(uname.as_str());
            match name {
                Some(n) => {
                    s.append(" ");
                    s.append(n);
                    s.append(";");
                },
                None => {
                    s.append(";");
                },
            }
            (TypeData::Union, s)
        },
        TypeRecord::Procedure { return_type, argument_list } => {
            let mut s = String::new();
            match return_type {
                Some(rt) => {
                    let ret = render_at(table, *rt, None, None);
                    s.append(ret.1.as_str());
                    s.append(" ");
                },
                None => {},
            }
            match name {
                Some(n) => {
                    s.append(n);
                    let sub = render_at(table, *argument_list, Some(n), None);
                    s.append(sub.1.as_str());
                },
                None => {
                    let sub = render_at(table, *argument_list, None, None);
                    s.append(sub.1.as_str());
                },
            }
            (TypeData::Procedure, s)
        },
        TypeRecord::ArgumentList { arguments } => {
            let s = render_args(table, arguments, Ghost(idx as int));
            (TypeData::ArgumentList, s)
        },
        TypeRecord::FieldList { .. } => (TypeData::FieldList, sentinel_text()),
        TypeRecord::Other => (TypeData::FieldList, sentinel_text()),
    }
}

/// Render the record at `idx` as a C-like declaration.
///
/// `name` is the member name to bind into the declaration, if any.  `prev`
/// is the already rendered packed-bits block for a continuing bit-field at
/// the same byte offset; every other record shape ignores it.
///
/// Resolution fails exactly when `idx` lies outside the table; that mirrors
/// a corrupt stream and is fatal to the caller's walk.
pub fn render(table: &TypeTable, idx: TypeIndex, name: Option<&str>, prev: Option<&str>) -> (r:
    Result<(TypeData, String), ResolveError>)
    requires
        table.wf(),
    ensures
        match r {
            Ok(p) => idx < table@.len() && p.0 == spec_render(
                table@,
                idx as int,
                opt_text(name),
                opt_text(prev),
            ).0 && p.1@ == spec_render(table@, idx as int, opt_text(name), opt_text(prev)).1,
            Err(e) => idx >= table@.len() && e.index == idx,
        },
{
    if idx < table.len() {
        Ok(render_at(table, idx, name, prev))
    } else {
        Err(ResolveError { index: idx })
    }
}

} // verus!
