//! Classification tags for rendered types and the glossary of primitive kinds.

use vstd::prelude::*;

verus! {

/// Classification of a rendered type, mirroring the top-level shape of the
/// type record it was rendered from.
#[derive(Debug, Clone, Copy, PartialEq, Eq, Structural)]
pub enum TypeData {
    Primitive,
    Class,
    Member,
    MemberFunction,
    OverloadedMethod,
    Method,
    StaticMember,
    Nested,
    BaseClass,
    VirtualBaseClass,
    VirtualFunctionTablePointer,
    Procedure,
    Pointer,
    Modifier,
    Enumeration,
    Enumerate,
    Array,
    Union,
    Bitfield,
    FieldList,
    ArgumentList,
    MethodList,
}

/// The built-in machine types a type stream can name directly.
#[derive(Debug, Clone, Copy, PartialEq, Eq, Structural)]
pub enum PrimitiveKind {
    NoType,
    Void,
    Char,
    UChar,
    WChar,
    RChar,
    RChar16,
    RChar32,
    Int8,
    UInt8,
    Short,
    UShort,
    Int16,
    UInt16,
    Long,
    ULong,
    Int32,
    UInt32,
    Quad,
    UQuad,
    Int64,
    UInt64,
    Octa,
    UOcta,
    Int128,
    UInt128,
    Float16,
    Float32,
    Float32PP,
    Float48,
    Float64,
    Float80,
    Float128,
    Complex32,
    Complex64,
    Complex80,
    Complex128,
    Bool8,
    Bool16,
    Bool32,
    Bool64,
    HRESULT,
    Unrecognized,
}

/// The upper-case token a primitive kind is rendered as.
pub open spec fn spec_kind_token(k: PrimitiveKind) -> Seq<char> {
    match k {
        PrimitiveKind::NoType => "NOTYPE"@,
        PrimitiveKind::Void => "VOID"@,
        PrimitiveKind::Char => "CHAR"@,
        PrimitiveKind::UChar => "UCHAR"@,
        PrimitiveKind::WChar => "WCHAR"@,
        PrimitiveKind::RChar => "RCHAR"@,
        PrimitiveKind::RChar16 => "RCHAR16"@,
        PrimitiveKind::RChar32 => "RCHAR32"@,
        PrimitiveKind::Int8 => "INT8"@,
        PrimitiveKind::UInt8 => "UINT8"@,
        PrimitiveKind::Short => "SHORT"@,
        PrimitiveKind::UShort => "USHORT"@,
        PrimitiveKind::Int16 => "INT16"@,
        PrimitiveKind::UInt16 => "UINT16"@,
        PrimitiveKind::Long => "LONG"@,
        PrimitiveKind::ULong => "ULONG"@,
        PrimitiveKind::Int32 => "INT32"@,
        PrimitiveKind::UInt32 => "UINT32"@,
        PrimitiveKind::Quad => "QUAD"@,
        PrimitiveKind::UQuad => "UQUAD"@,
        PrimitiveKind::Int64 => "INT64"@,
        PrimitiveKind::UInt64 => "UINT64"@,
        PrimitiveKind::Octa => "OCTA"@,
        PrimitiveKind::UOcta => "UOCTA"@,
        PrimitiveKind::Int128 => "INT128"@,
        PrimitiveKind::UInt128 => "UINT128"@,
        PrimitiveKind::Float16 => "FLOAT16"@,
        PrimitiveKind::Float32 => "FLOAT32"@,
        PrimitiveKind::Float32PP => "FLOAT32PP"@,
        PrimitiveKind::Float48 => "FLOAT48"@,
        PrimitiveKind::Float64 => "FLOAT64"@,
        PrimitiveKind::Float80 => "FLOAT80"@,
        PrimitiveKind::Float128 => "FLOAT128"@,
        PrimitiveKind::Complex32 => "COMPLEX32"@,
        PrimitiveKind::Complex64 => "COMPLEX64"@,
        PrimitiveKind::Complex80 => "COMPLEX80"@,
        PrimitiveKind::Complex128 => "COMPLEX128"@,
        PrimitiveKind::Bool8 => "BOOL8"@,
        PrimitiveKind::Bool16 => "BOOL16"@,
        PrimitiveKind::Bool32 => "BOOL32"@,
        PrimitiveKind::Bool64 => "BOOL64"@,
        PrimitiveKind::HRESULT => "HRESULT"@,
        PrimitiveKind::Unrecognized => "UNRECOGNIZED"@,
    }
}

impl PrimitiveKind {
    /// The upper-case token this kind is rendered as.
    pub fn token(&self) -> (r: &'static str)
        ensures
            r@ == spec_kind_token(*self),
    {
        match self {
            PrimitiveKind::NoType => "NOTYPE",
            PrimitiveKind::Void => "VOID",
            PrimitiveKind::Char => "CHAR",
            PrimitiveKind::UChar => "UCHAR",
            PrimitiveKind::WChar => "WCHAR",
            PrimitiveKind::RChar => "RCHAR",
            PrimitiveKind::RChar16 => "RCHAR16",
            PrimitiveKind::RChar32 => "RCHAR32",
            PrimitiveKind::Int8 => "INT8",
            PrimitiveKind::UInt8 => "UINT8",
            PrimitiveKind::Short => "SHORT",
            PrimitiveKind::UShort => "USHORT",
            PrimitiveKind::Int16 => "INT16",
            PrimitiveKind::UInt16 => "UINT16",
            PrimitiveKind::Long => "LONG",
            PrimitiveKind::ULong => "ULONG",
            PrimitiveKind::Int32 => "INT32",
            PrimitiveKind::UInt32 => "UINT32",
            PrimitiveKind::Quad => "QUAD",
            PrimitiveKind::UQuad => "UQUAD",
            PrimitiveKind::Int64 => "INT64",
            PrimitiveKind::UInt64 => "UINT64",
            PrimitiveKind::Octa => "OCTA",
            PrimitiveKind::UOcta => "UOCTA",
            PrimitiveKind::Int128 => "INT128",
            PrimitiveKind::UInt128 => "UINT128",
            PrimitiveKind::Float16 => "FLOAT16",
            PrimitiveKind::Float32 => "FLOAT32",
            PrimitiveKind::Float32PP => "FLOAT32PP",
            PrimitiveKind::Float48 => "FLOAT48",
            PrimitiveKind::Float64 => "FLOAT64",
            PrimitiveKind::Float80 => "FLOAT80",
            PrimitiveKind::Float128 => "FLOAT128",
            PrimitiveKind::Complex32 => "COMPLEX32",
            PrimitiveKind::Complex64 => "COMPLEX64",
            PrimitiveKind::Complex80 => "COMPLEX80",
            PrimitiveKind::Complex128 => "COMPLEX128",
            PrimitiveKind::Bool8 => "BOOL8",
            PrimitiveKind::Bool16 => "BOOL16",
            PrimitiveKind::Bool32 => "BOOL32",
            PrimitiveKind::Bool64 => "BOOL64",
            PrimitiveKind::HRESULT => "HRESULT",
            PrimitiveKind::Unrecognized => "UNRECOGNIZED",
        }
    }
}

} // verus!
