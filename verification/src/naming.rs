//! Canonical names. A raw grammar symbol becomes a name according to the
//! place where it is declared:
//!
//! - a type, an alias and an opcode of an extended table bear the symbol as
//!   it is ([`as_ident`]);
//! - a discriminant of a value enumeration bears the symbol, after the name
//!   of its operand kind where that kind is digit-sensitive
//!   ([`variant_name`]);
//! - a flag bears the symbol in upper-case snake case, with `NA_N` joined to
//!   `NAN` ([`flag_name`]);
//! - an opcode of the core table bears the instruction's name without its
//!   marker ([`opcode_name`]).
//!
//! Whatever the place, the name must be an identifier: a symbol that gives
//! none is reported as malformed, never mended.

use vstd::prelude::*;
use vstd::string::*;
use crate::casing::{shouty_snake_case, to_shouty_snake_case};
use crate::error::{modeled, GenError, GenErrorModel};
use crate::text::same_text;

verus! {

/// A character that may begin an identifier: an ASCII letter or an underscore.
pub open spec fn is_ident_start(c: char) -> bool {
    ('a' <= c && c <= 'z') || ('A' <= c && c <= 'Z') || c == '_'
}

/// A character that may occur in an identifier: an ASCII letter, an ASCII
/// digit or an underscore.
pub open spec fn is_ident_continue(c: char) -> bool {
    is_ident_start(c) || ('0' <= c && c <= '9')
}

/// An identifier is a non-empty text of identifier characters that does not
/// begin with a digit.
pub open spec fn is_identifier(text: Seq<char>) -> bool {
    &&& text.len() > 0
    &&& is_ident_start(text[0])
    &&& forall|i: int| 0 <= i < text.len() ==> is_ident_continue(#[trigger] text[i])
}

/// What [`as_ident`] returns for a text.
pub open spec fn ident_of(text: Seq<char>) -> Result<Seq<char>, GenErrorModel> {
    if is_identifier(text) {
        Ok(text)
    } else {
        Err(GenErrorModel::MalformedSymbol(text))
    }
}

fn ident_start(b: u8) -> (r: bool)
    ensures
        r == is_ident_start(b as char),
{
    (b >= 97 && b <= 122) || (b >= 65 && b <= 90) || b == 95
}

fn ident_continue(b: u8) -> (r: bool)
    ensures
        r == is_ident_continue(b as char),
{
    ident_start(b) || (b >= 48 && b <= 57)
}

/// Whether a text is an identifier.
pub fn is_valid_identifier(text: &str) -> (r: bool)
    ensures
        r == is_identifier(text@),
{
    if !text.is_ascii() {
        return false;
    }
    proof {
        is_ascii_spec_bytes(text);
    }
    let bytes = text.as_bytes();
    let n = bytes.len();
    if n == 0 || !ident_start(bytes[0]) {
        return false;
    }
    let mut i: usize = 1;
    while i < n
        invariant
            n == bytes@.len(),
            n == text@.len(),
            1 <= i <= n,
            is_ascii(text),
            forall|j: int| 0 <= j < n ==> bytes@[j] == (#[trigger] text@[j]) as u8,
            forall|j: int| 0 <= j < i ==> is_ident_continue(#[trigger] text@[j]),
        decreases n - i,
    {
        if !ident_continue(bytes[i]) {
            assert(bytes@[i as int] == text@[i as int] as u8);
            return false;
        }
        i += 1;
    }
    true
}

/// Accepts a text as an identifier, or rejects it as a malformed symbol.
pub fn as_ident(text: String) -> (r: Result<String, GenError>)
    ensures
        modeled(r) == ident_of(text@),
{
    if is_valid_identifier(text.as_str()) {
        Ok(text)
    } else {
        Err(GenError::MalformedSymbol(text))
    }
}

/// Whether enumerants of the operand kind of this name may begin with a digit.
pub open spec fn is_digit_sensitive(kind: Seq<char>) -> bool {
    kind == seq!['D', 'i', 'm']
}

/// The name under which a value enumerant is declared: the raw symbol, after
/// the name of its operand kind where that kind is digit-sensitive.
pub open spec fn variant_symbol(kind: Seq<char>, symbol: Seq<char>) -> Seq<char> {
    if is_digit_sensitive(kind) {
        kind + symbol
    } else {
        symbol
    }
}

/// Computes [`variant_symbol`].
pub fn variant_name(kind: &str, symbol: &str) -> (r: String)
    ensures
        r@ == variant_symbol(kind@, symbol@),
{
    proof {
        reveal_strlit("Dim");
        assert("Dim"@ =~= seq!['D', 'i', 'm']);
    }
    if same_text(kind, "Dim") {
        let mut name = String::from_str(kind);
        name.append(symbol);
        name
    } else {
        String::from_str(symbol)
    }
}

/// Whether a text begins with the four characters `NA_N`.
pub open spec fn begins_split_nan(text: Seq<char>) -> bool {
    &&& text.len() >= 4
    &&& text[0] == 'N'
    &&& text[1] == 'A'
    &&& text[2] == '_'
    &&& text[3] == 'N'
}

/// The text with every `NA_N` replaced by `NAN`, matching from left to right
/// and never inside a replacement.
pub open spec fn join_nan(text: Seq<char>) -> Seq<char>
    decreases text.len(),
{
    if text.len() < 4 {
        text
    } else if begins_split_nan(text) {
        seq!['N', 'A', 'N'] + join_nan(text.skip(4))
    } else {
        seq![text[0]] + join_nan(text.skip(1))
    }
}

/// Computes [`join_nan`].
pub fn mend_nan(text: &str) -> (r: String)
    ensures
        r@ == join_nan(text@),
{
    let n = text.unicode_len();
    let mut out = String::new();
    let mut start: usize = 0;
    let mut i: usize = 0;
    proof {
        reveal_strlit("NAN");
        assert(text@.skip(0) =~= text@);
    }
    while n - i >= 4
        invariant
            n == text@.len(),
            start <= i <= n,
            "NAN"@ == seq!['N', 'A', 'N'],
            join_nan(text@) == out@ + text@.subrange(start as int, i as int) + join_nan(
                text@.skip(i as int),
            ),
        decreases n - i,
    {
        let ghost rest = text@.skip(i as int);
        if text.get_char(i) == 'N' && text.get_char(i + 1) == 'A' && text.get_char(i + 2) == '_'
            && text.get_char(i + 3) == 'N' {
            out.append(text.substring_char(start, i));
            out.append("NAN");
            proof {
                assert(rest.skip(4) =~= text@.skip(i + 4));
            }
            i += 4;
            start = i;
        } else {
            proof {
                assert(rest.skip(1) =~= text@.skip(i + 1));
            }
            i += 1;
        }
    }
    out.append(text.substring_char(start, n));
    out
}

/// The name of the flag that stands for a raw symbol, given the symbol's
/// upper-case snake-case form.
pub open spec fn flag_symbol_from(shouty: Seq<char>) -> Result<Seq<char>, GenErrorModel> {
    ident_of(join_nan(shouty))
}

/// The name of the flag that stands for a raw symbol.
pub open spec fn flag_symbol(symbol: Seq<char>) -> Result<Seq<char>, GenErrorModel> {
    flag_symbol_from(shouty_snake_case(symbol))
}

/// Computes [`flag_symbol_from`].
pub fn flag_name_from(shouty: &str) -> (r: Result<String, GenError>)
    ensures
        modeled(r) == flag_symbol_from(shouty@),
{
    as_ident(mend_nan(shouty))
}

/// Computes [`flag_symbol`].
pub fn flag_name(symbol: &str) -> (r: Result<String, GenError>)
    ensures
        modeled(r) == flag_symbol(symbol@),
{
    let shouty = to_shouty_snake_case(symbol);
    flag_name_from(shouty.as_str())
}

/// The name of an opcode of the core table: the instruction's name without
/// its two-character marker. A name too short to hold a marker is malformed.
pub open spec fn core_opcode_symbol(opname: Seq<char>) -> Result<Seq<char>, GenErrorModel> {
    if opname.len() < 2 {
        Err(GenErrorModel::MalformedSymbol(opname))
    } else {
        ident_of(opname.skip(2))
    }
}

/// The name of an opcode of an extended table: the instruction's name as it is.
pub open spec fn extended_opcode_symbol(opname: Seq<char>) -> Result<Seq<char>, GenErrorModel> {
    ident_of(opname)
}

/// The name of an opcode, in a table whose names carry the marker or not.
pub open spec fn opcode_symbol(marked: bool, opname: Seq<char>) -> Result<
    Seq<char>,
    GenErrorModel,
> {
    if marked {
        core_opcode_symbol(opname)
    } else {
        extended_opcode_symbol(opname)
    }
}

/// Computes [`opcode_symbol`].
pub fn opcode_name(marked: bool, opname: &str) -> (r: Result<String, GenError>)
    ensures
        modeled(r) == opcode_symbol(marked, opname@),
{
    if marked {
        let n = opname.unicode_len();
        if n < 2 {
            Err(GenError::MalformedSymbol(String::from_str(opname)))
        } else {
            as_ident(String::from_str(opname.substring_char(2, n)))
        }
    } else {
        as_ident(String::from_str(opname))
    }
}

} // verus!
