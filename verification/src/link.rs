//! Links into the SPIR-V registry, used in documentation strings.

use vstd::prelude::*;
use vstd::string::*;
use crate::casing::{snake_case, to_snake_case};

verus! {

/// The markdown link for an operand kind whose anchor is given.
pub open spec fn spec_link_to(kind: Seq<char>, anchor: Seq<char>) -> Seq<char> {
    "["@ + kind + "]("@
        + "https://www.khronos.org/registry/spir-v/specs/unified1/SPIRV.html#_a_id_"@ + anchor
        + "_a_"@ + anchor + ")"@
}

/// The markdown link for an operand kind: its anchor is the kind's name in snake case.
pub open spec fn spec_link(kind: Seq<char>) -> Seq<char> {
    spec_link_to(kind, snake_case(kind))
}

/// Builds the markdown link whose text is `kind` and whose target is the
/// section of the registry page with the given anchor.
pub fn format_spec_link(kind: &str, anchor: &str) -> (r: String)
    ensures
        r@ == spec_link_to(kind@, anchor@),
{
    let mut out = String::from_str("[");
    out.append(kind);
    out.append("](");
    out.append("https://www.khronos.org/registry/spir-v/specs/unified1/SPIRV.html#_a_id_");
    out.append(anchor);
    out.append("_a_");
    out.append(anchor);
    out.append(")");
    out
}

/// Returns the markdown link to the registry section of the operand `kind`.
pub fn get_spec_link(kind: &str) -> (r: String)
    ensures
        r@ == spec_link(kind@),
{
    let anchor = to_snake_case(kind);
    format_spec_link(kind, anchor.as_str())
}

/// The documentation of a bit enumeration.
pub open spec fn bit_enum_doc(kind: Seq<char>) -> Seq<char> {
    "SPIR-V operand kind: "@ + spec_link(kind)
}

/// The documentation of a value enumeration.
pub open spec fn value_enum_doc(kind: Seq<char>) -> Seq<char> {
    "/// SPIR-V operand kind: "@ + spec_link(kind)
}

/// The documentation of the core opcode table.
pub open spec fn opcodes_doc() -> Seq<char> {
    "SPIR-V "@ + spec_link("instructions"@) + " opcodes"@
}

/// Computes [`bit_enum_doc`].
pub fn bit_enum_comment(kind: &str) -> (r: String)
    ensures
        r@ == bit_enum_doc(kind@),
{
    let mut out = String::from_str("SPIR-V operand kind: ");
    out.append(get_spec_link(kind).as_str());
    out
}

/// Computes [`value_enum_doc`].
pub fn value_enum_comment(kind: &str) -> (r: String)
    ensures
        r@ == value_enum_doc(kind@),
{
    let mut out = String::from_str("/// SPIR-V operand kind: ");
    out.append(get_spec_link(kind).as_str());
    out
}

/// Computes [`opcodes_doc`].
pub fn opcodes_comment() -> (r: String)
    ensures
        r@ == opcodes_doc(),
{
    let mut out = String::from_str("SPIR-V ");
    out.append(get_spec_link("instructions").as_str());
    out.append(" opcodes");
    out
}

} // verus!
