//! Small verified text-building blocks: decimal and hexadecimal numerals,
//! dimension lists, and case-insensitive substring matching.

use vstd::prelude::*;
use vstd::string::*;

verus! {

/// The single decimal digit `d` as text.
pub open spec fn spec_dec_digit(d: int) -> Seq<char> {
    if d == 0 {
        "0"@
    } else if d == 1 {
        "1"@
    } else if d == 2 {
        "2"@
    } else if d == 3 {
        "3"@
    } else if d == 4 {
        "4"@
    } else if d == 5 {
        "5"@
    } else if d == 6 {
        "6"@
    } else if d == 7 {
        "7"@
    } else if d == 8 {
        "8"@
    } else {
        "9"@
    }
}

/// `n` written in decimal, without sign or padding.
pub open spec fn spec_dec(n: nat) -> Seq<char>
    decreases n,
{
    if n < 10 {
        spec_dec_digit(n as int)
    } else {
        spec_dec(n / 10) + spec_dec_digit((n % 10) as int)
    }
}

/// The single hexadecimal digit `d` as text, lower case.
pub open spec fn spec_hex_digit(d: int) -> Seq<char> {
    if d < 10 {
        spec_dec_digit(d)
    } else if d == 10 {
        "a"@
    } else if d == 11 {
        "b"@
    } else if d == 12 {
        "c"@
    } else if d == 13 {
        "d"@
    } else if d == 14 {
        "e"@
    } else {
        "f"@
    }
}

/// `n` written in hexadecimal, lower case, without prefix.
pub open spec fn spec_hex(n: nat) -> Seq<char>
    decreases n,
{
    if n < 16 {
        spec_hex_digit(n as int)
    } else {
        spec_hex(n / 16) + spec_hex_digit((n % 16) as int)
    }
}

/// `n` written in hexadecimal with the `0x` prefix.
pub open spec fn spec_hex0x(n: nat) -> Seq<char> {
    "0x"@ + spec_hex(n)
}

fn dec_digit(d: u32) -> (r: &'static str)
    requires
        d < 10,
    ensures
        r@ == spec_dec_digit(d as int),
{
    match d {
        0 => "0",
        1 => "1",
        2 => "2",
        3 => "3",
        4 => "4",
        5 => "5",
        6 => "6",
        7 => "7",
        8 => "8",
        _ => "9",
    }
}

fn hex_digit(d: u32) -> (r: &'static str)
    requires
        d < 16,
    ensures
        r@ == spec_hex_digit(d as int),
{
    match d {
        0 => "0",
        1 => "1",
        2 => "2",
        3 => "3",
        4 => "4",
        5 => "5",
        6 => "6",
        7 => "7",
        8 => "8",
        9 => "9",
        10 => "a",
        11 => "b",
        12 => "c",
        13 => "d",
        14 => "e",
        _ => "f",
    }
}

/// `n` in decimal.
pub fn dec_text(n: u32) -> (r: String)
    ensures
        r@ == spec_dec(n as nat),
    decreases n,
{
    if n < 10 {
        dec_digit(n).to_owned()
    } else {
        let mut s = dec_text(n / 10);
        s.append(dec_digit(n % 10));
        s
    }
}

fn hex_text(n: u32) -> (r: String)
    ensures
        r@ == spec_hex(n as nat),
    decreases n,
{
    if n < 16 {
        hex_digit(n).to_owned()
    } else {
        let mut s = hex_text(n / 16);
        s.append(hex_digit(n % 16));
        s
    }
}

/// `n` in hexadecimal with the `0x` prefix.
pub fn hex0x_text(n: u32) -> (r: String)
    ensures
        r@ == spec_hex0x(n as nat),
{
    let mut s = String::from_str("0x");
    let rest = hex_text(n);
    s.append(rest.as_str());
    s
}

/// The comma-separated inside of a dimension list.
pub open spec fn spec_dims_inner(ds: Seq<u32>) -> Seq<char>
    decreases ds.len(),
{
    if ds.len() == 0 {
        Seq::<char>::empty()
    } else if ds.len() == 1 {
        spec_dec(ds[0] as nat)
    } else {
        spec_dims_inner(ds.drop_last()) + ", "@ + spec_dec(ds.last() as nat)
    }
}

/// A dimension list as a bracketed, comma-separated sequence, `[16, 64]`.
pub open spec fn spec_dims(ds: Seq<u32>) -> Seq<char> {
    "["@ + spec_dims_inner(ds) + "]"@
}

/// Render a dimension list.
pub fn dims_text(ds: &Vec<u32>) -> (r: String)
    ensures
        r@ == spec_dims(ds@),
{
    let mut s = String::from_str("[");
    let mut i: usize = 0;
    while i < ds.len()
        invariant
            i <= ds.len(),
            s@ == "["@ + spec_dims_inner(ds@.take(i as int)),
        decreases ds.len() - i,
    {
        if i > 0 {
            s.append(", ");
        }
        let d = dec_text(ds[i]);
        s.append(d.as_str());
        proof {
            assert(ds@.take(i + 1 as int).drop_last() =~= ds@.take(i as int));
            assert(ds@.take(i + 1 as int).last() == ds@[i as int]);
        }
        i = i + 1;
    }
    proof {
        assert(ds@.take(ds@.len() as int) =~= ds@);
    }
    s.append("]");
    s
}

/// A character mapped to lower case, for the ASCII letters only.
pub open spec fn spec_lower_char(c: char) -> char {
    if 'A' <= c && c <= 'Z' {
        ((c as u32) + 32) as char
    } else {
        c
    }
}

/// A sequence of characters mapped to lower case, ASCII letters only.
pub open spec fn spec_lower(s: Seq<char>) -> Seq<char> {
    s.map_values(|c: char| spec_lower_char(c))
}

/// `needle` occurs in `hay` starting at position `i`.
pub open spec fn spec_match_at(hay: Seq<char>, needle: Seq<char>, i: int) -> bool {
    forall|j: int| 0 <= j < needle.len() ==> hay[i + j] == needle[j]
}

/// `needle` occurs somewhere in `hay`.
pub open spec fn spec_contains(hay: Seq<char>, needle: Seq<char>) -> bool {
    exists|i: int| 0 <= i <= hay.len() - needle.len() && spec_match_at(hay, needle, i)
}

fn lower_char(c: char) -> (r: char)
    ensures
        r == spec_lower_char(c),
{
    if 'A' <= c && c <= 'Z' {
        (((c as u8) + 32) as char)
    } else {
        c
    }
}

/// Whether lower-cased `hay` contains lower-cased `needle`, so that the match
/// is case-insensitive for ASCII letters.
pub fn contains_ci(hay: &str, needle: &str) -> (r: bool)
    ensures
        r == spec_contains(spec_lower(hay@), spec_lower(needle@)),
{
    let hay_len = hay.unicode_len();
    let needle_len = needle.unicode_len();
    if needle_len > hay_len {
        return false;
    }
    let mut i: usize = 0;
    while i <= hay_len - needle_len
        invariant
            needle_len <= hay_len,
            hay_len == hay@.len(),
            needle_len == needle@.len(),
            i <= hay_len - needle_len + 1,
            forall|k: int|
                0 <= k < i ==> !spec_match_at(spec_lower(hay@), spec_lower(needle@), k),
        decreases hay_len - needle_len + 1 - i,
    {
        let mut j: usize = 0;
        let mut all_match = true;
        while j < needle_len
            invariant
                needle_len <= hay_len,
                hay_len == hay@.len(),
                needle_len == needle@.len(),
                i <= hay_len - needle_len,
                j <= needle_len,
                all_match == (forall|l: int|
                    0 <= l < j ==> spec_lower(hay@)[i + l] == spec_lower(needle@)[l]),
            decreases needle_len - j,
        {
            let hc = lower_char(hay.get_char(i + j));
            let nc = lower_char(needle.get_char(j));
            if hc != nc {
                all_match = false;
                proof {
                    assert(spec_lower(hay@)[i + j] != spec_lower(needle@)[j as int]);
                }
                j = needle_len;
            } else {
                proof {
                    assert(spec_lower(hay@)[i + j] == spec_lower(needle@)[j as int]);
                }
                j = j + 1;
            }
        }
        if all_match {
            proof {
                assert(spec_match_at(spec_lower(hay@), spec_lower(needle@), i as int));
            }
            return true;
        }
        i = i + 1;
    }
    false
}

} // verus!
