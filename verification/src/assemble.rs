//! The assembler: the format constants, the declarations of the operand
//! kinds in grammar order, and the core opcode table, as one unit.

use vstd::prelude::*;
use vstd::arithmetic::div_mod::lemma_div_denominator;
use vstd::string::*;
use crate::bit_enum::{bit_enum_of, gen_bit_enum_operand_kind};
use crate::decl::{Header, HeaderModel, KindDecl, KindDeclModel};
use crate::error::{modeled, GenError, GenErrorModel};
use crate::grammar::{Category, Grammar, GrammarModel, OperandKind, OperandKindModel};
use crate::opcodes::{core_opcodes_of, gen_core_opcodes};
use crate::value_enum::{gen_value_enum_operand_kind, value_enum_of};

verus! {

/// Sixteen to the power of `k`.
pub open spec fn pow16(k: nat) -> nat
    decreases k,
{
    if k == 0 {
        1
    } else {
        16 * pow16((k - 1) as nat)
    }
}

/// The hexadecimal digits, in upper case.
pub open spec fn hex_digits() -> Seq<char> {
    "0123456789ABCDEF"@
}

/// The digit at `position`, counted from the left, among the eight
/// hexadecimal digits of `n`.
pub open spec fn hex_digit_at(n: u32, position: int) -> char {
    hex_digits()[((n as int) / (pow16((7 - position) as nat) as int)) % 16]
}

/// The eight hexadecimal digits of `n`, in upper case.
pub open spec fn hex_digits_of(n: u32) -> Seq<char> {
    Seq::new(8, |i: int| hex_digit_at(n, i))
}

/// The hexadecimal literal for `n`: the prefix `0x` and eight digits in
/// upper case.
pub open spec fn hex_literal(n: u32) -> Seq<char> {
    "0x"@ + hex_digits_of(n)
}

/// Writes a number as a hexadecimal literal of eight upper-case digits.
pub fn magic_number_literal(n: u32) -> (r: String)
    ensures
        r@ == hex_literal(n),
{
    let digits = "0123456789ABCDEF";
    proof {
        reveal_strlit("0123456789ABCDEF");
        reveal_with_fuel(pow16, 8);
    }
    let mut out = String::from_str("0x");
    let mut divisor: u32 = 0x1000_0000;
    let mut i: usize = 0;
    while i < 8
        invariant
            i <= 8,
            digits@ == hex_digits(),
            digits@.len() == 16,
            i < 8 ==> divisor == pow16((7 - i) as nat),
            out@ == "0x"@ + hex_digits_of(n).take(i as int),
        decreases 8 - i,
    {
        assert(divisor > 0) by {
            lemma_pow16_positive((7 - i) as nat);
        }
        let d = ((n / divisor) % 16) as usize;
        out.append(digits.substring_char(d, d + 1));
        proof {
            assert(digits@.subrange(d as int, d + 1) =~= seq![hex_digit_at(n, i as int)]);
            assert(out@ =~= "0x"@ + hex_digits_of(n).take(i + 1));
        }
        divisor = divisor / 16;
        i += 1;
    }
    proof {
        assert(hex_digits_of(n).take(8) =~= hex_digits_of(n));
    }
    out
}

proof fn lemma_pow16_positive(k: nat)
    ensures
        pow16(k) > 0,
    decreases k,
{
    if k > 0 {
        lemma_pow16_positive((k - 1) as nat);
    }
}

/// Whether an operand kind leads to a declaration.
pub open spec fn is_generated(k: OperandKindModel) -> bool {
    k.category != Category::Other
}

/// The declaration of an operand kind, if its category leads to one.
pub open spec fn operand_kind_decl(kinds: Seq<OperandKindModel>, k: OperandKindModel) -> Result<
    Option<KindDeclModel>,
    GenErrorModel,
> {
    match k.category {
        Category::BitEnum => match bit_enum_of(kinds, k) {
            Ok(bits) => Ok(Some(KindDeclModel::Bits(bits))),
            Err(err) => Err(err),
        },
        Category::ValueEnum => match value_enum_of(kinds, k) {
            Ok(values) => Ok(Some(KindDeclModel::Values(values))),
            Err(err) => Err(err),
        },
        Category::Other => Ok(None),
    }
}

/// The declarations of the operand kinds `ks`, in their order, or the error
/// of the first kind that cannot be declared.
pub open spec fn kind_decls(kinds: Seq<OperandKindModel>, ks: Seq<OperandKindModel>) -> Result<
    Seq<KindDeclModel>,
    GenErrorModel,
>
    decreases ks.len(),
{
    if ks.len() == 0 {
        Ok(Seq::empty())
    } else {
        match kind_decls(kinds, ks.drop_last()) {
            Err(err) => Err(err),
            Ok(decls) => match operand_kind_decl(kinds, ks.last()) {
                Err(err) => Err(err),
                Ok(None) => Ok(decls),
                Ok(Some(decl)) => Ok(decls.push(decl)),
            },
        }
    }
}

/// Everything declared for a grammar. The instructions are read before the
/// operand kinds, so an error among them is the one reported.
pub open spec fn header_of(g: GrammarModel) -> Result<HeaderModel, GenErrorModel> {
    match core_opcodes_of(g.instructions) {
        Err(err) => Err(err),
        Ok(opcodes) => match kind_decls(g.operand_kinds, g.operand_kinds) {
            Err(err) => Err(err),
            Ok(kinds) => Ok(
                HeaderModel {
                    magic_number: hex_literal(g.magic_number),
                    major_version: g.major_version,
                    minor_version: g.minor_version,
                    revision: g.revision,
                    kinds,
                    opcodes,
                },
            ),
        },
    }
}

/// Declaring one more operand kind is one step from the declarations of
/// those before it.
pub proof fn lemma_kind_decls_next(
    kinds: Seq<OperandKindModel>,
    ks: Seq<OperandKindModel>,
    n: int,
)
    requires
        0 <= n < ks.len(),
    ensures
        kind_decls(kinds, ks.take(n + 1)) == match kind_decls(kinds, ks.take(n)) {
            Err(err) => Err(err),
            Ok(decls) => match operand_kind_decl(kinds, ks[n]) {
                Err(err) => Err(err),
                Ok(None) => Ok(decls),
                Ok(Some(decl)) => Ok(decls.push(decl)),
            },
        },
{
    assert(ks.take(n + 1).drop_last() =~= ks.take(n));
}

/// An error among the first `n` operand kinds is the error of them all.
pub proof fn lemma_kind_decls_fails(
    kinds: Seq<OperandKindModel>,
    ks: Seq<OperandKindModel>,
    n: int,
)
    requires
        0 <= n <= ks.len(),
        kind_decls(kinds, ks.take(n)) is Err,
    ensures
        kind_decls(kinds, ks) == kind_decls(kinds, ks.take(n)),
    decreases ks.len() - n,
{
    if n < ks.len() {
        lemma_kind_decls_next(kinds, ks, n);
        lemma_kind_decls_fails(kinds, ks, n + 1);
    } else {
        assert(ks.take(n) =~= ks);
    }
}

/// Generates the declaration of an operand kind, if its category leads to
/// one. `kinds` are the operand kinds of the grammar.
pub fn gen_operand_kind(grammar: &OperandKind, kinds: &Vec<OperandKind>) -> (r: Result<
    Option<KindDecl>,
    GenError,
>)
    ensures
        modeled(r) == operand_kind_decl(kinds.deep_view(), grammar@),
        r matches Ok(Some(decl)) ==> decl@.well_formed(),
{
    match grammar.category {
        Category::BitEnum => match gen_bit_enum_operand_kind(grammar, kinds) {
            Ok(bits) => Ok(Some(KindDecl::Bits(bits))),
            Err(err) => Err(err),
        },
        Category::ValueEnum => match gen_value_enum_operand_kind(grammar, kinds) {
            Ok(values) => Ok(Some(KindDecl::Values(values))),
            Err(err) => Err(err),
        },
        Category::Other => Ok(None),
    }
}

/// Generates everything declared for a grammar: the format constants, one
/// declaration per operand kind that leads to one, and the opcode table.
pub fn gen_spirv_header(grammar: &Grammar) -> (r: Result<Header, GenError>)
    ensures
        modeled(r) == header_of(grammar@),
        r is Ok ==> r->Ok_0@.well_formed(),
{
    let opcodes = match gen_core_opcodes(&grammar.instructions) {
        Ok(opcodes) => opcodes,
        Err(err) => {
            return Err(err);
        },
    };
    let ghost ks = grammar.operand_kinds.deep_view();
    let mut kinds: Vec<KindDecl> = Vec::new();
    proof {
        assert(ks.take(0) =~= Seq::<OperandKindModel>::empty());
        assert(kinds.deep_view() =~= Seq::<KindDeclModel>::empty());
    }
    let mut i: usize = 0;
    while i < grammar.operand_kinds.len()
        invariant
            i <= grammar.operand_kinds.len(),
            ks == grammar.operand_kinds.deep_view(),
            ks == grammar@.operand_kinds,
            core_opcodes_of(grammar@.instructions) is Ok,
            kind_decls(ks, ks.take(i as int)) == Ok::<Seq<KindDeclModel>, GenErrorModel>(
                kinds.deep_view(),
            ),
            forall|j: int|
                0 <= j < kinds.len() ==> (#[trigger] kinds.deep_view()[j]).well_formed(),
            opcodes@.well_formed(),
        decreases grammar.operand_kinds.len() - i,
    {
        let ghost before = kinds.deep_view();
        proof {
            lemma_kind_decls_next(ks, ks, i as int);
        }
        match gen_operand_kind(&grammar.operand_kinds[i], &grammar.operand_kinds) {
            Ok(Some(decl)) => {
                let ghost added = decl@;
                kinds.push(decl);
                proof {
                    assert(kinds.deep_view() =~= before.push(added));
                }
            },
            Ok(None) => {},
            Err(err) => {
                proof {
                    lemma_kind_decls_fails(ks, ks, i + 1);
                }
                return Err(err);
            },
        }
        i += 1;
    }
    proof {
        assert(ks.take(i as int) =~= ks);
    }
    Ok(
        Header {
            magic_number: magic_number_literal(grammar.magic_number),
            major_version: grammar.major_version,
            minor_version: grammar.minor_version,
            revision: grammar.revision,
            kinds,
            opcodes,
        },
    )
}

/// The operand kinds that lead to a declaration.
pub open spec fn generated() -> spec_fn(OperandKindModel) -> bool {
    |k: OperandKindModel| is_generated(k)
}

proof fn lemma_kind_decls_follow(kinds: Seq<OperandKindModel>, ks: Seq<OperandKindModel>)
    requires
        kind_decls(kinds, ks) is Ok,
    ensures
        kind_decls(kinds, ks)->Ok_0.len() == ks.filter(generated()).len(),
        forall|i: int|
            0 <= i < ks.filter(generated()).len() ==> operand_kind_decl(
                kinds,
                #[trigger] ks.filter(generated())[i],
            ) == Ok::<Option<KindDeclModel>, GenErrorModel>(Some(kind_decls(kinds, ks)->Ok_0[i])),
    decreases ks.len(),
{
    if ks.len() == 0 {
        assert(ks.filter(generated()).len() == 0) by {
            ks.lemma_filter_len(generated());
        }
    } else {
        let init = ks.drop_last();
        lemma_kind_decls_follow(kinds, init);
        assert(ks =~= init.push(ks.last()));
        init.lemma_filter_push(ks.last(), generated());
    }
}

/// Grammar order is kept: the declarations are those of the operand kinds
/// that lead to one, in the order of the grammar and with nothing between
/// them for the kinds that lead to none.
pub proof fn law_declarations_keep_grammar_order(g: GrammarModel, h: HeaderModel)
    requires
        header_of(g) == Ok::<HeaderModel, GenErrorModel>(h),
    ensures
        h.kinds.len() == g.operand_kinds.filter(generated()).len(),
        forall|i: int|
            0 <= i < h.kinds.len() ==> operand_kind_decl(
                g.operand_kinds,
                #[trigger] g.operand_kinds.filter(generated())[i],
            ) == Ok::<Option<KindDeclModel>, GenErrorModel>(Some(h.kinds[i])),
{
    lemma_kind_decls_follow(g.operand_kinds, g.operand_kinds);
}

/// The number that an upper-case hexadecimal digit stands for.
pub open spec fn digit_value(c: char) -> int {
    if '0' <= c && c <= '9' {
        c as int - '0' as int
    } else {
        c as int - 'A' as int + 10
    }
}

/// The number that a run of hexadecimal digits stands for.
pub open spec fn hex_value(digits: Seq<char>) -> int
    decreases digits.len(),
{
    if digits.len() == 0 {
        0
    } else {
        16 * hex_value(digits.drop_last()) + digit_value(digits.last())
    }
}

proof fn lemma_digit_value(d: int)
    requires
        0 <= d < 16,
    ensures
        digit_value(hex_digits()[d]) == d,
{
    reveal_strlit("0123456789ABCDEF");
}

proof fn lemma_hex_prefix(n: u32, k: nat)
    requires
        k <= 8,
    ensures
        hex_value(hex_digits_of(n).take(k as int)) == (n as int) / (pow16((8 - k) as nat) as int),
    decreases k,
{
    let digits = hex_digits_of(n);
    if k == 0 {
        assert(pow16(8) == 0x1_0000_0000) by {
            reveal_with_fuel(pow16, 9);
        }
        assert((n as int) / 0x1_0000_0000 == 0);
    } else {
        let unit = pow16((8 - k) as nat) as int;
        let q = (n as int) / unit;
        let prefix = digits.take(k as int);
        lemma_hex_prefix(n, (k - 1) as nat);
        lemma_pow16_positive((8 - k) as nat);
        assert(prefix.drop_last() =~= digits.take(k - 1));
        lemma_div_denominator(n as int, unit, 16);
        assert(hex_value(prefix.drop_last()) == q / 16);
        assert(pow16((7 - (k - 1)) as nat) as int == unit);
        assert(hex_digit_at(n, k - 1) == hex_digits()[q % 16]);
        lemma_digit_value(q % 16);
        assert(16 * (q / 16) + q % 16 == q);
    }
}

/// The hexadecimal literal of a number is the prefix `0x` and eight digits
/// that stand for the number.
pub proof fn law_hex_literal_denotes_its_number(n: u32)
    ensures
        hex_literal(n).len() == 10,
        hex_literal(n).take(2) == "0x"@,
        hex_value(hex_literal(n).skip(2)) == n,
{
    let digits = hex_digits_of(n);
    reveal_strlit("0x");
    reveal_with_fuel(pow16, 2);
    assert(hex_literal(n).skip(2) =~= digits);
    assert(digits.take(8) =~= digits);
    lemma_hex_prefix(n, 8);
}

} // verus!
