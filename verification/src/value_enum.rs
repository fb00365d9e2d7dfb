//! The value-enumeration generator: one enumeration per operand kind of
//! mutually exclusive values, in which the first enumerant of a value becomes
//! its discriminant and every later one an alias.

use vstd::prelude::*;
use vstd::string::*;
use std::collections::BTreeMap;
use crate::clauses::{add_to_group, attach_operands, attached, grouped};
use crate::decl::{
    number_lookup, with_value, Alias, AliasModel, ClauseGroupModel, NameArm, NameArmModel,
    OperandClauseModel, ValueEnum, ValueEnumModel, Variant, VariantModel,
};
use crate::error::{modeled, GenError, GenErrorModel};
use crate::grammar::{EnumerantModel, OperandKind, OperandKindModel};
use crate::link::{value_enum_comment, value_enum_doc};
use crate::naming::{as_ident, ident_of, variant_name, variant_symbol};
use crate::operands::{build_operands, built_operands};
use crate::search::lemma_first_hit_push;
use crate::value_enum_laws::law_generated_enumeration_is_well_formed;

verus! {

/// The enumeration of an operand kind before any enumerant has been read.
pub open spec fn empty_value_enum(kind: Seq<char>) -> ValueEnumModel {
    ValueEnumModel {
        name: kind,
        doc: value_enum_doc(kind),
        variants: Seq::empty(),
        aliases: Seq::empty(),
        names: Seq::empty(),
        capability_clauses: Seq::empty(),
        extension_clauses: Seq::empty(),
        operand_clauses: Seq::empty(),
    }
}

/// The enumeration after one more enumerant. If its value is already that of
/// a discriminant, the enumerant becomes an alias of it under its raw symbol,
/// and its parameters are not looked at. Otherwise it becomes a discriminant
/// under its canonical name, joins the groups of its capabilities and of its
/// extensions, and has its operands recorded.
pub open spec fn value_enum_step(
    kinds: Seq<OperandKindModel>,
    kind: Seq<char>,
    so_far: ValueEnumModel,
    e: EnumerantModel,
) -> Result<ValueEnumModel, GenErrorModel> {
    match number_lookup(so_far.variants, e.value) {
        Some(canonical) => match ident_of(e.symbol) {
            Err(err) => Err(err),
            Ok(name) => Ok(
                ValueEnumModel {
                    aliases: so_far.aliases.push(AliasModel { name, target: canonical }),
                    names: so_far.names.push(NameArmModel { key: name, symbol: canonical }),
                    ..so_far
                },
            ),
        },
        None => match ident_of(variant_symbol(kind, e.symbol)) {
            Err(err) => Err(err),
            Ok(name) => match built_operands(kinds, e.parameters) {
                Err(err) => Err(err),
                Ok(operands) => Ok(
                    ValueEnumModel {
                        variants: so_far.variants.push(VariantModel { name, value: e.value }),
                        names: so_far.names.push(NameArmModel { key: name, symbol: name }),
                        capability_clauses: grouped(
                            so_far.capability_clauses,
                            e.capabilities,
                            name,
                        ),
                        extension_clauses: grouped(so_far.extension_clauses, e.extensions, name),
                        operand_clauses: attached(so_far.operand_clauses, name, operands),
                        ..so_far
                    },
                ),
            },
        },
    }
}

/// The enumeration after the enumerants have been read in order, or the
/// error of the first enumerant that cannot be read.
pub open spec fn value_enum_scan(
    kinds: Seq<OperandKindModel>,
    kind: Seq<char>,
    es: Seq<EnumerantModel>,
) -> Result<ValueEnumModel, GenErrorModel>
    decreases es.len(),
{
    if es.len() == 0 {
        Ok(empty_value_enum(kind))
    } else {
        match value_enum_scan(kinds, kind, es.drop_last()) {
            Err(err) => Err(err),
            Ok(so_far) => value_enum_step(kinds, kind, so_far, es.last()),
        }
    }
}

/// The value enumeration of an operand kind, in a grammar with the operand
/// kinds `kinds`.
pub open spec fn value_enum_of(kinds: Seq<OperandKindModel>, k: OperandKindModel) -> Result<
    ValueEnumModel,
    GenErrorModel,
> {
    match ident_of(k.kind) {
        Err(err) => Err(err),
        Ok(_) => value_enum_scan(kinds, k.kind, k.enumerants),
    }
}

/// Reading one more enumerant is one step from the scan of those before it.
pub proof fn lemma_value_enum_scan_next(
    kinds: Seq<OperandKindModel>,
    kind: Seq<char>,
    es: Seq<EnumerantModel>,
    n: int,
)
    requires
        0 <= n < es.len(),
    ensures
        value_enum_scan(kinds, kind, es.take(n + 1)) == match value_enum_scan(
            kinds,
            kind,
            es.take(n),
        ) {
            Err(err) => Err(err),
            Ok(so_far) => value_enum_step(kinds, kind, so_far, es[n]),
        },
{
    assert(es.take(n + 1).drop_last() =~= es.take(n));
}

/// An error among the first `n` enumerants is the error of the whole scan.
pub proof fn lemma_value_enum_scan_fails(
    kinds: Seq<OperandKindModel>,
    kind: Seq<char>,
    es: Seq<EnumerantModel>,
    n: int,
)
    requires
        0 <= n <= es.len(),
        value_enum_scan(kinds, kind, es.take(n)) is Err,
    ensures
        value_enum_scan(kinds, kind, es) == value_enum_scan(kinds, kind, es.take(n)),
    decreases es.len() - n,
{
    if n < es.len() {
        lemma_value_enum_scan_next(kinds, kind, es, n);
        lemma_value_enum_scan_fails(kinds, kind, es, n + 1);
    } else {
        assert(es.take(n) =~= es);
    }
}

/// Generates the value enumeration of an operand kind. `kinds` are the
/// operand kinds of the grammar, against which parameters are resolved.
pub fn gen_value_enum_operand_kind(grammar: &OperandKind, kinds: &Vec<OperandKind>) -> (r: Result<
    ValueEnum,
    GenError,
>)
    ensures
        modeled(r) == value_enum_of(kinds.deep_view(), grammar@),
        r is Ok ==> r->Ok_0@.well_formed(),
{
    let name = match as_ident(grammar.kind.clone()) {
        Ok(name) => name,
        Err(err) => {
            return Err(err);
        },
    };
    let ghost all = kinds.deep_view();
    let ghost kind = grammar.kind@;
    let ghost es = grammar.enumerants.deep_view();
    let mut seen: BTreeMap<u32, String> = BTreeMap::new();
    let mut out = ValueEnum {
        name,
        doc: value_enum_comment(grammar.kind.as_str()),
        variants: Vec::new(),
        aliases: Vec::new(),
        names: Vec::new(),
        capability_clauses: Vec::new(),
        extension_clauses: Vec::new(),
        operand_clauses: Vec::new(),
    };
    proof {
        assert(out@.variants =~= Seq::<VariantModel>::empty());
        assert(out@.aliases =~= Seq::<AliasModel>::empty());
        assert(out@.names =~= Seq::<NameArmModel>::empty());
        assert(out@.capability_clauses =~= Seq::<ClauseGroupModel>::empty());
        assert(out@.operand_clauses =~= Seq::<OperandClauseModel>::empty());
    }
    let mut i: usize = 0;
    while i < grammar.enumerants.len()
        invariant
            i <= grammar.enumerants.len(),
            all == kinds.deep_view(),
            kind == grammar.kind@,
            es == grammar.enumerants.deep_view(),
            grammar@.enumerants == es,
            ident_of(kind) is Ok,
            value_enum_scan(all, kind, es.take(i as int)) == Ok::<ValueEnumModel, GenErrorModel>(
                out@,
            ),
            forall|v: u32|
                number_lookup(out@.variants, v) == (if seen@.contains_key(v) {
                    Some(seen@[v]@)
                } else {
                    None
                }),
        decreases grammar.enumerants.len() - i,
    {
        let e = &grammar.enumerants[i];
        let ghost before = out@;
        let ghost known = seen@;
        proof {
            lemma_value_enum_scan_next(all, kind, es, i as int);
        }
        match seen.get(&e.value) {
            Some(canonical) => {
                let alias = match as_ident(e.symbol.clone()) {
                    Ok(alias) => alias,
                    Err(err) => {
                        proof {
                            lemma_value_enum_scan_fails(all, kind, es, i + 1);
                        }
                        return Err(err);
                    },
                };
                out.names.push(NameArm { key: alias.clone(), symbol: canonical.clone() });
                out.aliases.push(Alias { name: alias, target: canonical.clone() });
                proof {
                    assert(out@.names =~= before.names.push(
                        NameArmModel { key: e@.symbol, symbol: canonical@ },
                    ));
                    assert(out@.aliases =~= before.aliases.push(
                        AliasModel { name: e@.symbol, target: canonical@ },
                    ));
                }
            },
            None => {
                let fresh = variant_name(grammar.kind.as_str(), e.symbol.as_str());
                let name = match as_ident(fresh) {
                    Ok(name) => name,
                    Err(err) => {
                        proof {
                            lemma_value_enum_scan_fails(all, kind, es, i + 1);
                        }
                        return Err(err);
                    },
                };
                let operands = match build_operands(&e.parameters, kinds) {
                    Ok(operands) => operands,
                    Err(err) => {
                        proof {
                            lemma_value_enum_scan_fails(all, kind, es, i + 1);
                        }
                        return Err(err);
                    },
                };
                let ghost added = VariantModel { name: name@, value: e.value };
                seen.insert(e.value, name.clone());
                out.variants.push(Variant { name: name.clone(), value: e.value });
                out.names.push(NameArm { key: name.clone(), symbol: name.clone() });
                add_to_group(&mut out.capability_clauses, &e.capabilities, name.clone());
                add_to_group(&mut out.extension_clauses, &e.extensions, name.clone());
                attach_operands(&mut out.operand_clauses, name, operands);
                proof {
                    assert(out@.variants =~= before.variants.push(added));
                    assert(out@.names =~= before.names.push(
                        NameArmModel { key: added.name, symbol: added.name },
                    ));
                    assert forall|v: u32|
                        number_lookup(out@.variants, v) == (if seen@.contains_key(v) {
                            Some(seen@[v]@)
                        } else {
                            None
                        }) by {
                        lemma_first_hit_push(before.variants, added, with_value(v));
                        assert(number_lookup(before.variants, v) == (if known.contains_key(v) {
                            Some(known[v]@)
                        } else {
                            None
                        }));
                    }
                }
            },
        }
        i += 1;
    }
    proof {
        assert(es.take(i as int) =~= es);
        law_generated_enumeration_is_well_formed(all, grammar@, out@);
    }
    Ok(out)
}

} // verus!
