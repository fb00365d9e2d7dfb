//! The bit-enumeration generator: one enumeration of combinable masks per
//! operand kind, with the operands that single flags add.

use vstd::prelude::*;
use vstd::string::*;
use crate::decl::{
    contains_bits, flag_lookup, has_flag, with_flag_in, BitEnum, BitEnumModel, Flag, FlagModel,
    FlagOperands, FlagOperandsModel, LogicalOperandModel,
};
use crate::error::{modeled, GenError, GenErrorModel};
use crate::grammar::{EnumerantModel, OperandKind, OperandKindModel};
use crate::link::{bit_enum_comment, bit_enum_doc};
use crate::naming::{as_ident, flag_name, flag_symbol, ident_of, is_identifier};
use crate::operands::{build_operands, built_operands, logical_operands};
use crate::search::{first_hit, lemma_first_hit_at, lemma_first_hit_none, lemma_first_hit_push};

verus! {

/// The enumeration of an operand kind before any enumerant has been read.
pub open spec fn empty_bit_enum(kind: Seq<char>) -> BitEnumModel {
    BitEnumModel {
        name: kind,
        doc: bit_enum_doc(kind),
        flags: Seq::empty(),
        flag_operands: Seq::empty(),
    }
}

/// The enumeration after one more enumerant: it becomes a flag with the
/// value it has in the grammar, whatever that value is, and if it has
/// parameters, their operands become a case of the operand lookup.
pub open spec fn bit_enum_step(
    kinds: Seq<OperandKindModel>,
    so_far: BitEnumModel,
    e: EnumerantModel,
) -> Result<BitEnumModel, GenErrorModel> {
    match flag_symbol(e.symbol) {
        Err(err) => Err(err),
        Ok(name) => match built_operands(kinds, e.parameters) {
            Err(err) => Err(err),
            Ok(operands) => Ok(
                BitEnumModel {
                    flags: so_far.flags.push(FlagModel { name, value: e.value }),
                    flag_operands: if operands.len() > 0 {
                        so_far.flag_operands.push(
                            FlagOperandsModel { flag: name, bits: e.value, operands },
                        )
                    } else {
                        so_far.flag_operands
                    },
                    ..so_far
                },
            ),
        },
    }
}

/// The enumeration after the enumerants have been read in order, or the
/// error of the first enumerant that cannot be read.
pub open spec fn bit_enum_scan(
    kinds: Seq<OperandKindModel>,
    kind: Seq<char>,
    es: Seq<EnumerantModel>,
) -> Result<BitEnumModel, GenErrorModel>
    decreases es.len(),
{
    if es.len() == 0 {
        Ok(empty_bit_enum(kind))
    } else {
        match bit_enum_scan(kinds, kind, es.drop_last()) {
            Err(err) => Err(err),
            Ok(so_far) => bit_enum_step(kinds, so_far, es.last()),
        }
    }
}

/// The bit enumeration of an operand kind, in a grammar with the operand
/// kinds `kinds`. The name of the kind is looked at after its enumerants.
pub open spec fn bit_enum_of(kinds: Seq<OperandKindModel>, k: OperandKindModel) -> Result<
    BitEnumModel,
    GenErrorModel,
> {
    match bit_enum_scan(kinds, k.kind, k.enumerants) {
        Err(err) => Err(err),
        Ok(flags) => match ident_of(k.kind) {
            Err(err) => Err(err),
            Ok(_) => Ok(flags),
        },
    }
}

/// Reading one more enumerant is one step from the scan of those before it.
pub proof fn lemma_bit_enum_scan_next(
    kinds: Seq<OperandKindModel>,
    kind: Seq<char>,
    es: Seq<EnumerantModel>,
    n: int,
)
    requires
        0 <= n < es.len(),
    ensures
        bit_enum_scan(kinds, kind, es.take(n + 1)) == match bit_enum_scan(kinds, kind, es.take(n)) {
            Err(err) => Err(err),
            Ok(so_far) => bit_enum_step(kinds, so_far, es[n]),
        },
{
    assert(es.take(n + 1).drop_last() =~= es.take(n));
}

/// An error among the first `n` enumerants is the error of the whole scan.
pub proof fn lemma_bit_enum_scan_fails(
    kinds: Seq<OperandKindModel>,
    kind: Seq<char>,
    es: Seq<EnumerantModel>,
    n: int,
)
    requires
        0 <= n <= es.len(),
        bit_enum_scan(kinds, kind, es.take(n)) is Err,
    ensures
        bit_enum_scan(kinds, kind, es) == bit_enum_scan(kinds, kind, es.take(n)),
    decreases es.len() - n,
{
    if n < es.len() {
        lemma_bit_enum_scan_next(kinds, kind, es, n);
        lemma_bit_enum_scan_fails(kinds, kind, es, n + 1);
    } else {
        assert(es.take(n) =~= es);
    }
}

/// Generates the bit enumeration of an operand kind. `kinds` are the operand
/// kinds of the grammar, against which parameters are resolved.
pub fn gen_bit_enum_operand_kind(grammar: &OperandKind, kinds: &Vec<OperandKind>) -> (r: Result<
    BitEnum,
    GenError,
>)
    ensures
        modeled(r) == bit_enum_of(kinds.deep_view(), grammar@),
        r is Ok ==> r->Ok_0@.well_formed(),
{
    let ghost all = kinds.deep_view();
    let ghost kind = grammar.kind@;
    let ghost es = grammar.enumerants.deep_view();
    let mut flags: Vec<Flag> = Vec::new();
    let mut flag_operands: Vec<FlagOperands> = Vec::new();
    proof {
        assert(flags.deep_view() =~= Seq::<FlagModel>::empty());
        assert(flag_operands.deep_view() =~= Seq::<FlagOperandsModel>::empty());
    }
    let mut i: usize = 0;
    while i < grammar.enumerants.len()
        invariant
            i <= grammar.enumerants.len(),
            all == kinds.deep_view(),
            kind == grammar.kind@,
            es == grammar.enumerants.deep_view(),
            bit_enum_scan(all, kind, es.take(i as int)) == Ok::<BitEnumModel, GenErrorModel>(
                BitEnumModel {
                    flags: flags.deep_view(),
                    flag_operands: flag_operands.deep_view(),
                    ..empty_bit_enum(kind)
                },
            ),
        decreases grammar.enumerants.len() - i,
    {
        let e = &grammar.enumerants[i];
        let ghost flags_before = flags.deep_view();
        let ghost cases_before = flag_operands.deep_view();
        proof {
            lemma_bit_enum_scan_next(all, kind, es, i as int);
        }
        let name = match flag_name(e.symbol.as_str()) {
            Ok(name) => name,
            Err(err) => {
                proof {
                    lemma_bit_enum_scan_fails(all, kind, es, i + 1);
                }
                return Err(err);
            },
        };
        let operands = match build_operands(&e.parameters, kinds) {
            Ok(operands) => operands,
            Err(err) => {
                proof {
                    lemma_bit_enum_scan_fails(all, kind, es, i + 1);
                }
                return Err(err);
            },
        };
        flags.push(Flag { name: name.clone(), value: e.value });
        proof {
            assert(flags.deep_view() =~= flags_before.push(
                FlagModel { name: name@, value: e.value },
            ));
        }
        if operands.len() > 0 {
            let ghost added = FlagOperandsModel {
                flag: name@,
                bits: e.value,
                operands: operands.deep_view(),
            };
            flag_operands.push(FlagOperands { flag: name, bits: e.value, operands });
            proof {
                assert(flag_operands.deep_view() =~= cases_before.push(added));
            }
        }
        i += 1;
    }
    proof {
        assert(es.take(i as int) =~= es);
    }
    let doc = bit_enum_comment(grammar.kind.as_str());
    match as_ident(grammar.kind.clone()) {
        Ok(name) => {
            let bits = BitEnum { name, doc, flags, flag_operands };
            proof {
                law_generated_flags_are_well_formed(all, grammar@, bits@);
            }
            Ok(bits)
        },
        Err(err) => Err(err),
    }
}

/// The probe that finds the operands of an enumerant with parameters whose
/// flag is named `flag` and whose bits are all set in `set`.
pub open spec fn operands_when_contained(set: u32, flag: Seq<char>) -> spec_fn(
    EnumerantModel,
) -> Option<Seq<LogicalOperandModel>> {
    |e: EnumerantModel|
        if e.parameters.len() > 0 && flag_symbol(e.symbol) == Ok::<Seq<char>, GenErrorModel>(flag)
            && contains_bits(set, e.value) {
            Some(logical_operands(e.parameters))
        } else {
            None
        }
}

/// The flag that the enumerant at `i` becomes.
pub open spec fn flag_at(es: Seq<EnumerantModel>, i: int) -> FlagModel {
    FlagModel { name: flag_symbol(es[i].symbol)->Ok_0, value: es[i].value }
}

proof fn lemma_scan_flags(kinds: Seq<OperandKindModel>, kind: Seq<char>, es: Seq<EnumerantModel>)
    requires
        bit_enum_scan(kinds, kind, es) is Ok,
    ensures
        bit_enum_scan(kinds, kind, es)->Ok_0.name == kind,
        bit_enum_scan(kinds, kind, es)->Ok_0.doc == bit_enum_doc(kind),
        bit_enum_scan(kinds, kind, es)->Ok_0.flags.len() == es.len(),
        forall|i: int| 0 <= i < es.len() ==> flag_symbol((#[trigger] es[i]).symbol) is Ok,
        forall|i: int|
            0 <= i < es.len() ==> (#[trigger] bit_enum_scan(kinds, kind, es)->Ok_0.flags[i])
                == flag_at(es, i),
        forall|set: u32, flag: Seq<char>|
            #[trigger] flag_lookup(bit_enum_scan(kinds, kind, es)->Ok_0.flag_operands, set, flag)
                == first_hit(es, operands_when_contained(set, flag)),
    decreases es.len(),
{
    if es.len() > 0 {
        let init = es.drop_last();
        let e = es.last();
        let before = bit_enum_scan(kinds, kind, init)->Ok_0;
        let after = bit_enum_scan(kinds, kind, es)->Ok_0;
        lemma_scan_flags(kinds, kind, init);
        assert forall|i: int| 0 <= i < es.len() implies flag_symbol(
            (#[trigger] es[i]).symbol,
        ) is Ok by {
            if i < es.len() - 1 {
                assert(init[i] == es[i]);
            }
        }
        assert forall|i: int| 0 <= i < es.len() implies (#[trigger] after.flags[i]) == flag_at(
            es,
            i,
        ) by {
        }
        assert forall|set: u32, flag: Seq<char>| #[trigger]
            flag_lookup(after.flag_operands, set, flag) == first_hit(
                es,
                operands_when_contained(set, flag),
            ) by {
            assert(flag_lookup(before.flag_operands, set, flag) == first_hit(
                init,
                operands_when_contained(set, flag),
            ));
            if e.parameters.len() > 0 {
                let added = FlagOperandsModel {
                    flag: flag_symbol(e.symbol)->Ok_0,
                    bits: e.value,
                    operands: logical_operands(e.parameters),
                };
                lemma_first_hit_push(before.flag_operands, added, with_flag_in(set, flag));
            }
        }
    }
}

/// A bit enumeration has one flag per enumerant, in grammar order, each at
/// the value it has in the grammar.
pub proof fn law_flags_follow_enumerants(
    kinds: Seq<OperandKindModel>,
    k: OperandKindModel,
    b: BitEnumModel,
)
    requires
        bit_enum_of(kinds, k) == Ok::<BitEnumModel, GenErrorModel>(b),
    ensures
        b.name == k.kind,
        is_identifier(b.name),
        b.flags == Seq::new(k.enumerants.len(), |i: int| flag_at(k.enumerants, i)),
{
    lemma_scan_flags(kinds, k.kind, k.enumerants);
}

/// The operand lookup of a generated enumeration finds the operands of the
/// first enumerant with parameters that bears the flag's name and whose
/// bits the flag set contains.
pub proof fn law_flag_operands_come_from_enumerants(
    kinds: Seq<OperandKindModel>,
    k: OperandKindModel,
    b: BitEnumModel,
    set: u32,
    flag: Seq<char>,
)
    requires
        bit_enum_of(kinds, k) == Ok::<BitEnumModel, GenErrorModel>(b),
    ensures
        flag_lookup(b.flag_operands, set, flag) == first_hit(
            k.enumerants,
            operands_when_contained(set, flag),
        ),
{
    lemma_scan_flags(kinds, k.kind, k.enumerants);
}

/// Containment, not equality: a flag with parameters gives its operands to
/// every flag set that contains its bits, whatever other bits are set. This
/// holds of a flag whose name no earlier enumerant bears.
pub proof fn law_flag_operands_by_containment(
    kinds: Seq<OperandKindModel>,
    k: OperandKindModel,
    b: BitEnumModel,
    i: int,
    set: u32,
)
    requires
        bit_enum_of(kinds, k) == Ok::<BitEnumModel, GenErrorModel>(b),
        0 <= i < k.enumerants.len(),
        k.enumerants[i].parameters.len() > 0,
        contains_bits(set, k.enumerants[i].value),
        forall|j: int|
            0 <= j < i ==> flag_symbol((#[trigger] k.enumerants[j]).symbol) != flag_symbol(
                k.enumerants[i].symbol,
            ),
    ensures
        flag_symbol(k.enumerants[i].symbol) is Ok,
        flag_lookup(b.flag_operands, set, flag_symbol(k.enumerants[i].symbol)->Ok_0) == Some(
            logical_operands(k.enumerants[i].parameters),
        ),
{
    let es = k.enumerants;
    lemma_scan_flags(kinds, k.kind, es);
    let flag = flag_symbol(es[i].symbol)->Ok_0;
    law_flag_operands_come_from_enumerants(kinds, k, b, set, flag);
    lemma_first_hit_at(es, operands_when_contained(set, flag), i);
}

/// A flag none of whose enumerants has parameters adds no operands to any
/// flag set, and neither does a flag whose bits the set does not contain.
pub proof fn law_flag_without_case_adds_nothing(
    kinds: Seq<OperandKindModel>,
    k: OperandKindModel,
    b: BitEnumModel,
    set: u32,
    flag: Seq<char>,
)
    requires
        bit_enum_of(kinds, k) == Ok::<BitEnumModel, GenErrorModel>(b),
        forall|j: int|
            0 <= j < k.enumerants.len() && flag_symbol((#[trigger] k.enumerants[j]).symbol) == Ok::<
                Seq<char>,
                GenErrorModel,
            >(flag) ==> k.enumerants[j].parameters.len() == 0 || !contains_bits(
                set,
                k.enumerants[j].value,
            ),
    ensures
        flag_lookup(b.flag_operands, set, flag) is None,
{
    law_flag_operands_come_from_enumerants(kinds, k, b, set, flag);
    lemma_first_hit_none(k.enumerants, operands_when_contained(set, flag));
}

proof fn lemma_scan_cases(kinds: Seq<OperandKindModel>, kind: Seq<char>, es: Seq<EnumerantModel>)
    requires
        bit_enum_scan(kinds, kind, es) is Ok,
    ensures
        forall|i: int|
            0 <= i < bit_enum_scan(kinds, kind, es)->Ok_0.flags.len() ==> is_identifier(
                (#[trigger] bit_enum_scan(kinds, kind, es)->Ok_0.flags[i]).name,
            ),
        forall|i: int|
            0 <= i < bit_enum_scan(kinds, kind, es)->Ok_0.flag_operands.len() ==> {
                let case = #[trigger] bit_enum_scan(kinds, kind, es)->Ok_0.flag_operands[i];
                case.operands.len() > 0 && has_flag(
                    bit_enum_scan(kinds, kind, es)->Ok_0.flags,
                    case.flag,
                    case.bits,
                )
            },
    decreases es.len(),
{
    if es.len() > 0 {
        let before = bit_enum_scan(kinds, kind, es.drop_last())->Ok_0;
        let after = bit_enum_scan(kinds, kind, es)->Ok_0;
        lemma_scan_cases(kinds, kind, es.drop_last());
        assert forall|i: int| 0 <= i < after.flags.len() implies is_identifier(
            (#[trigger] after.flags[i]).name,
        ) by {
            if i < before.flags.len() {
                assert(after.flags[i] == before.flags[i]);
            }
        }
        assert forall|name: Seq<char>, value: u32| has_flag(before.flags, name, value) implies has_flag(
            after.flags,
            name,
            value,
        ) by {
            let i = choose|i: int|
                0 <= i < before.flags.len() && #[trigger] before.flags[i] == (FlagModel {
                    name,
                    value,
                });
            assert(after.flags[i] == before.flags[i]);
        }
        assert forall|i: int| 0 <= i < after.flag_operands.len() implies {
            let case = #[trigger] after.flag_operands[i];
            case.operands.len() > 0 && has_flag(after.flags, case.flag, case.bits)
        } by {
            if i < before.flag_operands.len() {
                assert(after.flag_operands[i] == before.flag_operands[i]);
            } else {
                assert(after.flags[after.flags.len() - 1] == FlagModel {
                    name: after.flag_operands[i].flag,
                    value: after.flag_operands[i].bits,
                });
            }
        }
    }
}

/// A generated bit enumeration is well formed and bears the name of its
/// operand kind.
pub proof fn law_generated_flags_are_well_formed(
    kinds: Seq<OperandKindModel>,
    k: OperandKindModel,
    b: BitEnumModel,
)
    requires
        bit_enum_of(kinds, k) == Ok::<BitEnumModel, GenErrorModel>(b),
    ensures
        b.name == k.kind,
        b.doc == bit_enum_doc(k.kind),
        b.well_formed(),
{
    lemma_scan_flags(kinds, k.kind, k.enumerants);
    lemma_scan_cases(kinds, k.kind, k.enumerants);
    assert(bit_enum_scan(kinds, k.kind, k.enumerants)->Ok_0 == b);
}

} // verus!
