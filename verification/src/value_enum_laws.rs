//! What holds of every generated value enumeration: how numbers and names
//! convert, which names are declared, and what the side tables hold.

use vstd::prelude::*;
use crate::clauses::{
    clause_members, law_attaching_touches_one_symbol, law_grouping_touches_one_clause,
    symbol_operands,
};
use crate::decl::{
    declares, name_lookup, number_lookup, with_key, with_value, LogicalOperandModel,
    NameArmModel, ValueEnumModel, VariantModel,
};
use crate::error::GenErrorModel;
use crate::grammar::{EnumerantModel, OperandKindModel};
use crate::link::value_enum_doc;
use crate::naming::{is_digit_sensitive, is_identifier, variant_symbol};
use crate::operands::logical_operands;
use crate::search::{
    first_hit, lemma_first_hit_at, lemma_first_hit_none, lemma_first_hit_push,
    lemma_first_hit_some,
};
use crate::value_enum::{empty_value_enum, value_enum_of, value_enum_scan};

verus! {

/// The probe that finds the canonical name of an enumerant with the value `v`.
pub open spec fn named_with_value(kind: Seq<char>, v: u32) -> spec_fn(EnumerantModel) -> Option<
    Seq<char>,
> {
    |e: EnumerantModel|
        if e.value == v {
            Some(variant_symbol(kind, e.symbol))
        } else {
            None
        }
}

/// The canonical symbol of a value: the canonical name of the first
/// enumerant, in grammar order, that has this value.
pub open spec fn canonical_symbol(kind: Seq<char>, es: Seq<EnumerantModel>, v: u32) -> Option<
    Seq<char>,
> {
    first_hit(es, named_with_value(kind, v))
}

/// Whether an enumerant before the one at `i` has the same value.
pub open spec fn is_alias_at(es: Seq<EnumerantModel>, i: int) -> bool {
    exists|j: int| 0 <= j < i && (#[trigger] es[j]).value == es[i].value
}

/// The case of the conversion from names that the enumerant at `i` gives
/// rise to: an alias is found under its raw symbol, a discriminant under its
/// canonical name, and both stand for the canonical symbol of their value.
pub open spec fn name_arm_at(kind: Seq<char>, es: Seq<EnumerantModel>, i: int) -> NameArmModel {
    match canonical_symbol(kind, es.take(i), es[i].value) {
        Some(canonical) => NameArmModel { key: es[i].symbol, symbol: canonical },
        None => NameArmModel {
            key: variant_symbol(kind, es[i].symbol),
            symbol: variant_symbol(kind, es[i].symbol),
        },
    }
}

/// An enumerant is an alias exactly when its value has a canonical symbol
/// among the enumerants before it.
pub proof fn lemma_alias_has_canonical(kind: Seq<char>, es: Seq<EnumerantModel>, i: int)
    requires
        0 <= i < es.len(),
    ensures
        is_alias_at(es, i) <==> canonical_symbol(kind, es.take(i), es[i].value) is Some,
{
    let probe = named_with_value(kind, es[i].value);
    lemma_first_hit_none(es.take(i), probe);
    if is_alias_at(es, i) {
        let j = choose|j: int| 0 <= j < i && (#[trigger] es[j]).value == es[i].value;
        assert(probe(es.take(i)[j]) is Some);
    }
}

proof fn lemma_scan_numbers(kinds: Seq<OperandKindModel>, kind: Seq<char>, es: Seq<EnumerantModel>)
    requires
        value_enum_scan(kinds, kind, es) is Ok,
    ensures
        forall|v: u32|
            #[trigger] number_lookup(value_enum_scan(kinds, kind, es)->Ok_0.variants, v)
                == canonical_symbol(kind, es, v),
    decreases es.len(),
{
    if es.len() > 0 {
        let before = value_enum_scan(kinds, kind, es.drop_last())->Ok_0;
        let after = value_enum_scan(kinds, kind, es)->Ok_0;
        let e = es.last();
        lemma_scan_numbers(kinds, kind, es.drop_last());
        assert forall|v: u32| number_lookup(after.variants, v) == canonical_symbol(kind, es, v) by {
            assert(number_lookup(before.variants, v) == canonical_symbol(kind, es.drop_last(), v));
            if number_lookup(before.variants, e.value) is None {
                let added = VariantModel { name: variant_symbol(kind, e.symbol), value: e.value };
                lemma_first_hit_push(before.variants, added, with_value(v));
            }
        }
    }
}

proof fn lemma_scan_names(kinds: Seq<OperandKindModel>, kind: Seq<char>, es: Seq<EnumerantModel>)
    requires
        value_enum_scan(kinds, kind, es) is Ok,
    ensures
        value_enum_scan(kinds, kind, es)->Ok_0.names.len() == es.len(),
        forall|i: int|
            0 <= i < es.len() ==> (#[trigger] value_enum_scan(kinds, kind, es)->Ok_0.names[i])
                == name_arm_at(kind, es, i),
    decreases es.len(),
{
    if es.len() > 0 {
        let init = es.drop_last();
        let after = value_enum_scan(kinds, kind, es)->Ok_0;
        let last = es.len() - 1;
        lemma_scan_names(kinds, kind, init);
        lemma_scan_numbers(kinds, kind, init);
        assert forall|i: int| 0 <= i < es.len() implies (#[trigger] after.names[i]) == name_arm_at(
            kind,
            es,
            i,
        ) by {
            if i < last {
                assert(init.take(i) =~= es.take(i));
            }
        }
    }
}

/// The numeric conversion of a generated enumeration finds, for every
/// number, the canonical symbol of that value in the grammar.
pub proof fn law_numbers_convert_to_canonical_symbols(
    kinds: Seq<OperandKindModel>,
    k: OperandKindModel,
    e: ValueEnumModel,
    n: u32,
)
    requires
        value_enum_of(kinds, k) == Ok::<ValueEnumModel, GenErrorModel>(e),
    ensures
        number_lookup(e.variants, n) == canonical_symbol(k.kind, k.enumerants, n),
{
    lemma_scan_numbers(kinds, k.kind, k.enumerants);
}

/// Numeric round trip: the value of the first enumerant of its value
/// converts to that enumerant's canonical name, and so does the value of
/// every later enumerant that shares it.
pub proof fn law_number_round_trip(
    kinds: Seq<OperandKindModel>,
    k: OperandKindModel,
    e: ValueEnumModel,
    first: int,
    later: int,
)
    requires
        value_enum_of(kinds, k) == Ok::<ValueEnumModel, GenErrorModel>(e),
        0 <= first <= later < k.enumerants.len(),
        !is_alias_at(k.enumerants, first),
        k.enumerants[later].value == k.enumerants[first].value,
    ensures
        number_lookup(e.variants, k.enumerants[later].value) == Some(
            variant_symbol(k.kind, k.enumerants[first].symbol),
        ),
{
    let es = k.enumerants;
    law_numbers_convert_to_canonical_symbols(kinds, k, e, es[first].value);
    lemma_first_hit_at(es, named_with_value(k.kind, es[first].value), first);
}

/// A number that is the value of no enumerant converts to nothing.
pub proof fn law_unknown_number_converts_to_nothing(
    kinds: Seq<OperandKindModel>,
    k: OperandKindModel,
    e: ValueEnumModel,
    n: u32,
)
    requires
        value_enum_of(kinds, k) == Ok::<ValueEnumModel, GenErrorModel>(e),
        forall|i: int| 0 <= i < k.enumerants.len() ==> (#[trigger] k.enumerants[i]).value != n,
    ensures
        number_lookup(e.variants, n) is None,
{
    law_numbers_convert_to_canonical_symbols(kinds, k, e, n);
    lemma_first_hit_none(k.enumerants, named_with_value(k.kind, n));
}

/// The conversion from names has one case per enumerant, in grammar order.
pub proof fn law_names_follow_enumerants(
    kinds: Seq<OperandKindModel>,
    k: OperandKindModel,
    e: ValueEnumModel,
)
    requires
        value_enum_of(kinds, k) == Ok::<ValueEnumModel, GenErrorModel>(e),
    ensures
        e.names == Seq::new(k.enumerants.len(), |i: int| name_arm_at(k.kind, k.enumerants, i)),
{
    lemma_scan_names(kinds, k.kind, k.enumerants);
}

/// A discriminant resolves to itself: the canonical name of the first
/// enumerant of its value converts to that name, unless an earlier enumerant
/// claims the same key.
pub proof fn law_canonical_name_converts_to_itself(
    kinds: Seq<OperandKindModel>,
    k: OperandKindModel,
    e: ValueEnumModel,
    first: int,
)
    requires
        value_enum_of(kinds, k) == Ok::<ValueEnumModel, GenErrorModel>(e),
        0 <= first < k.enumerants.len(),
        !is_alias_at(k.enumerants, first),
        forall|i: int|
            0 <= i < first ==> (#[trigger] name_arm_at(k.kind, k.enumerants, i)).key
                != variant_symbol(k.kind, k.enumerants[first].symbol),
    ensures
        name_lookup(e.names, variant_symbol(k.kind, k.enumerants[first].symbol)) == Some(
            variant_symbol(k.kind, k.enumerants[first].symbol),
        ),
{
    let es = k.enumerants;
    let canonical = variant_symbol(k.kind, es[first].symbol);
    lemma_scan_names(kinds, k.kind, es);
    lemma_alias_has_canonical(k.kind, es, first);
    assert forall|i: int| 0 <= i < first implies (#[trigger] with_key(canonical)(
        e.names[i],
    )) is None by {}
    lemma_first_hit_at(e.names, with_key(canonical), first);
}

/// An alias resolves like its canonical symbol: its raw name converts to the
/// canonical symbol of its value, which is also what its value converts to.
/// This holds of an alias whose raw name is not the key of an earlier
/// enumerant; the conversion gives a key to the first enumerant that claims it.
pub proof fn law_alias_resolves_to_canonical_symbol(
    kinds: Seq<OperandKindModel>,
    k: OperandKindModel,
    e: ValueEnumModel,
    first: int,
    alias: int,
)
    requires
        value_enum_of(kinds, k) == Ok::<ValueEnumModel, GenErrorModel>(e),
        0 <= first < alias < k.enumerants.len(),
        !is_alias_at(k.enumerants, first),
        k.enumerants[alias].value == k.enumerants[first].value,
        forall|i: int|
            0 <= i < alias ==> (#[trigger] name_arm_at(k.kind, k.enumerants, i)).key
                != k.enumerants[alias].symbol,
    ensures
        name_lookup(e.names, k.enumerants[alias].symbol) == Some(
            variant_symbol(k.kind, k.enumerants[first].symbol),
        ),
        number_lookup(e.variants, k.enumerants[alias].value) == Some(
            variant_symbol(k.kind, k.enumerants[first].symbol),
        ),
{
    let es = k.enumerants;
    let kind = k.kind;
    let probe = named_with_value(kind, es[first].value);
    law_number_round_trip(kinds, k, e, first, alias);
    lemma_scan_names(kinds, kind, es);
    assert forall|j: int| 0 <= j < first implies (#[trigger] probe(es.take(alias)[j])) is None by {}
    lemma_first_hit_at(es.take(alias), probe, first);
    assert forall|i: int| 0 <= i < alias implies (#[trigger] with_key(es[alias].symbol)(
        e.names[i],
    )) is None by {
        assert(e.names[i] == name_arm_at(kind, es, i));
    }
    lemma_first_hit_at(e.names, with_key(es[alias].symbol), alias);
}

/// The conversion from names accepts exactly the keys of the enumerants,
/// compared character by character.
pub proof fn law_names_convert_exactly(
    kinds: Seq<OperandKindModel>,
    k: OperandKindModel,
    e: ValueEnumModel,
    name: Seq<char>,
)
    requires
        value_enum_of(kinds, k) == Ok::<ValueEnumModel, GenErrorModel>(e),
    ensures
        name_lookup(e.names, name) is Some <==> exists|i: int|
            0 <= i < k.enumerants.len() && (#[trigger] name_arm_at(k.kind, k.enumerants, i)).key
                == name,
{
    let es = k.enumerants;
    lemma_scan_names(kinds, k.kind, es);
    lemma_first_hit_none(e.names, with_key(name));
    if name_lookup(e.names, name) is Some {
        let i = choose|i: int| 0 <= i < e.names.len() && (#[trigger] with_key(name)(e.names[i])) is Some;
    }
    if exists|i: int|
        0 <= i < es.len() && (#[trigger] name_arm_at(k.kind, es, i)).key == name {
        let i = choose|i: int|
            0 <= i < es.len() && (#[trigger] name_arm_at(k.kind, es, i)).key == name;
        assert(with_key(name)(e.names[i]) is Some);
    }
}

/// An operand kind without enumerants has an enumeration without variants,
/// and neither a number nor a name converts to anything.
pub proof fn law_empty_kind_converts_nothing(
    kinds: Seq<OperandKindModel>,
    k: OperandKindModel,
    n: u32,
    name: Seq<char>,
)
    requires
        k.enumerants.len() == 0,
        is_identifier(k.kind),
    ensures
        value_enum_of(kinds, k) == Ok::<ValueEnumModel, GenErrorModel>(empty_value_enum(k.kind)),
        number_lookup(empty_value_enum(k.kind).variants, n) is None,
        name_lookup(empty_value_enum(k.kind).names, name) is None,
{
}

proof fn lemma_scan_keeps_heading(
    kinds: Seq<OperandKindModel>,
    kind: Seq<char>,
    es: Seq<EnumerantModel>,
)
    requires
        value_enum_scan(kinds, kind, es) is Ok,
    ensures
        value_enum_scan(kinds, kind, es)->Ok_0.name == kind,
        value_enum_scan(kinds, kind, es)->Ok_0.doc == value_enum_doc(kind),
        forall|a: int, b: int|
            0 <= a < b < value_enum_scan(kinds, kind, es)->Ok_0.variants.len() ==> (
            #[trigger] value_enum_scan(kinds, kind, es)->Ok_0.variants[a]).value != (
            #[trigger] value_enum_scan(kinds, kind, es)->Ok_0.variants[b]).value,
        forall|i: int|
            0 <= i < value_enum_scan(kinds, kind, es)->Ok_0.variants.len() ==> {
                let name = (#[trigger] value_enum_scan(kinds, kind, es)->Ok_0.variants[i]).name;
                is_identifier(name) && (is_digit_sensitive(kind) ==> kind.is_prefix_of(name))
            },
        forall|i: int|
            0 <= i < value_enum_scan(kinds, kind, es)->Ok_0.aliases.len() ==> is_identifier(
                (#[trigger] value_enum_scan(kinds, kind, es)->Ok_0.aliases[i]).name,
            ),
    decreases es.len(),
{
    if es.len() > 0 {
        let before = value_enum_scan(kinds, kind, es.drop_last())->Ok_0;
        let after = value_enum_scan(kinds, kind, es)->Ok_0;
        let e = es.last();
        lemma_scan_keeps_heading(kinds, kind, es.drop_last());
        lemma_first_hit_none(before.variants, with_value(e.value));
        assert forall|a: int, b: int| 0 <= a < b < after.variants.len() implies (
        #[trigger] after.variants[a]).value != (#[trigger] after.variants[b]).value by {
            if number_lookup(before.variants, e.value) is None {
                if b == before.variants.len() {
                    assert(with_value(e.value)(before.variants[a]) is None);
                }
            }
        }
        assert forall|i: int| 0 <= i < after.variants.len() implies {
            let name = (#[trigger] after.variants[i]).name;
            is_identifier(name) && (is_digit_sensitive(kind) ==> kind.is_prefix_of(name))
        } by {
            if i < before.variants.len() {
                assert(after.variants[i] == before.variants[i]);
            }
        }
        assert forall|i: int| 0 <= i < after.aliases.len() implies is_identifier(
            (#[trigger] after.aliases[i]).name,
        ) by {
        }
    }
}

/// Every name that a generated enumeration declares is an identifier, so
/// none begins with a digit; and in the digit-sensitive operand kind every
/// discriminant begins with the name of the kind.
pub proof fn law_declared_names_are_identifiers(
    kinds: Seq<OperandKindModel>,
    k: OperandKindModel,
    e: ValueEnumModel,
)
    requires
        value_enum_of(kinds, k) == Ok::<ValueEnumModel, GenErrorModel>(e),
    ensures
        forall|i: int|
            0 <= i < e.variants.len() ==> {
                let name = (#[trigger] e.variants[i]).name;
                &&& is_identifier(name)
                &&& !('0' <= name[0] && name[0] <= '9')
                &&& is_digit_sensitive(k.kind) ==> k.kind.is_prefix_of(name)
            },
        forall|i: int|
            0 <= i < e.aliases.len() ==> is_identifier((#[trigger] e.aliases[i]).name),
{
    lemma_scan_keeps_heading(kinds, k.kind, k.enumerants);
}

/// The gating clause that is the list of capabilities of an enumerant.
pub open spec fn by_capabilities() -> spec_fn(EnumerantModel) -> Seq<Seq<char>> {
    |e: EnumerantModel| e.capabilities
}

/// The gating clause that is the list of extensions of an enumerant.
pub open spec fn by_extensions() -> spec_fn(EnumerantModel) -> Seq<Seq<char>> {
    |e: EnumerantModel| e.extensions
}

/// The canonical names, in grammar order, of the discriminants whose gating
/// clause is exactly `clause`, if there is any.
pub open spec fn symbols_gated_by(
    kind: Seq<char>,
    es: Seq<EnumerantModel>,
    gate: spec_fn(EnumerantModel) -> Seq<Seq<char>>,
    clause: Seq<Seq<char>>,
) -> Option<Seq<Seq<char>>>
    decreases es.len(),
{
    if es.len() == 0 {
        None
    } else {
        let earlier = symbols_gated_by(kind, es.drop_last(), gate, clause);
        let name = variant_symbol(kind, es.last().symbol);
        if !is_alias_at(es, es.len() - 1) && gate(es.last()) == clause {
            Some(
                match earlier {
                    Some(members) => members.push(name),
                    None => seq![name],
                },
            )
        } else {
            earlier
        }
    }
}

/// The operands, in grammar order, of the discriminants whose canonical
/// name is `symbol`, if there is any. Aliases contribute nothing.
pub open spec fn operands_recorded_for(kind: Seq<char>, es: Seq<EnumerantModel>, symbol: Seq<char>) -> Option<
    Seq<LogicalOperandModel>,
>
    decreases es.len(),
{
    if es.len() == 0 {
        None
    } else {
        let earlier = operands_recorded_for(kind, es.drop_last(), symbol);
        let operands = logical_operands(es.last().parameters);
        if !is_alias_at(es, es.len() - 1) && variant_symbol(kind, es.last().symbol) == symbol {
            Some(
                match earlier {
                    Some(recorded) => recorded + operands,
                    None => operands,
                },
            )
        } else {
            earlier
        }
    }
}

proof fn lemma_scan_clauses(kinds: Seq<OperandKindModel>, kind: Seq<char>, es: Seq<EnumerantModel>)
    requires
        value_enum_scan(kinds, kind, es) is Ok,
    ensures
        forall|clause: Seq<Seq<char>>|
            #[trigger] clause_members(
                value_enum_scan(kinds, kind, es)->Ok_0.capability_clauses,
                clause,
            ) == symbols_gated_by(kind, es, by_capabilities(), clause),
        forall|clause: Seq<Seq<char>>|
            #[trigger] clause_members(
                value_enum_scan(kinds, kind, es)->Ok_0.extension_clauses,
                clause,
            ) == symbols_gated_by(kind, es, by_extensions(), clause),
        forall|symbol: Seq<char>|
            #[trigger] symbol_operands(value_enum_scan(kinds, kind, es)->Ok_0.operand_clauses, symbol)
                == operands_recorded_for(kind, es, symbol),
    decreases es.len(),
{
    if es.len() > 0 {
        let init = es.drop_last();
        let last = es.len() - 1;
        let e = es.last();
        let before = value_enum_scan(kinds, kind, init)->Ok_0;
        let after = value_enum_scan(kinds, kind, es)->Ok_0;
        let name = variant_symbol(kind, e.symbol);
        lemma_scan_clauses(kinds, kind, init);
        lemma_scan_numbers(kinds, kind, init);
        lemma_alias_has_canonical(kind, es, last);
        assert(init =~= es.take(last));
        assert forall|clause: Seq<Seq<char>>| #[trigger]
            clause_members(after.capability_clauses, clause) == symbols_gated_by(
                kind,
                es,
                by_capabilities(),
                clause,
            ) by {
            if !is_alias_at(es, last) {
                law_grouping_touches_one_clause(
                    before.capability_clauses,
                    e.capabilities,
                    name,
                    clause,
                );
            }
        }
        assert forall|clause: Seq<Seq<char>>| #[trigger]
            clause_members(after.extension_clauses, clause) == symbols_gated_by(
                kind,
                es,
                by_extensions(),
                clause,
            ) by {
            assert(clause_members(before.extension_clauses, clause) == symbols_gated_by(
                kind,
                init,
                by_extensions(),
                clause,
            ));
            if !is_alias_at(es, last) {
                law_grouping_touches_one_clause(
                    before.extension_clauses,
                    e.extensions,
                    name,
                    clause,
                );
            }
        }
        assert forall|symbol: Seq<char>| #[trigger]
            symbol_operands(after.operand_clauses, symbol) == operands_recorded_for(
                kind,
                es,
                symbol,
            ) by {
            if !is_alias_at(es, last) {
                law_attaching_touches_one_symbol(
                    before.operand_clauses,
                    name,
                    logical_operands(e.parameters),
                    symbol,
                );
            }
        }
    }
}

/// The symbols behind a gating clause are the discriminants with exactly
/// this list of capabilities, or of extensions, in grammar order. Aliases
/// are in no group.
pub proof fn law_clauses_group_discriminants(
    kinds: Seq<OperandKindModel>,
    k: OperandKindModel,
    e: ValueEnumModel,
    clause: Seq<Seq<char>>,
)
    requires
        value_enum_of(kinds, k) == Ok::<ValueEnumModel, GenErrorModel>(e),
    ensures
        clause_members(e.capability_clauses, clause) == symbols_gated_by(
            k.kind,
            k.enumerants,
            by_capabilities(),
            clause,
        ),
        clause_members(e.extension_clauses, clause) == symbols_gated_by(
            k.kind,
            k.enumerants,
            by_extensions(),
            clause,
        ),
{
    lemma_scan_clauses(kinds, k.kind, k.enumerants);
}

/// The operands behind a symbol are those of the discriminants of this
/// name, in grammar order.
pub proof fn law_operands_come_from_discriminants(
    kinds: Seq<OperandKindModel>,
    k: OperandKindModel,
    e: ValueEnumModel,
    symbol: Seq<char>,
)
    requires
        value_enum_of(kinds, k) == Ok::<ValueEnumModel, GenErrorModel>(e),
    ensures
        symbol_operands(e.operand_clauses, symbol) == operands_recorded_for(
            k.kind,
            k.enumerants,
            symbol,
        ),
{
    lemma_scan_clauses(kinds, k.kind, k.enumerants);
}

proof fn lemma_recorded_for_one(
    kind: Seq<char>,
    es: Seq<EnumerantModel>,
    first: int,
    n: int,
)
    requires
        0 <= first < es.len(),
        0 <= n <= es.len(),
        !is_alias_at(es, first),
        forall|j: int|
            0 <= j < es.len() && j != first && !is_alias_at(es, j) ==> variant_symbol(
                kind,
                (#[trigger] es[j]).symbol,
            ) != variant_symbol(kind, es[first].symbol),
    ensures
        operands_recorded_for(kind, es.take(n), variant_symbol(kind, es[first].symbol)) == (if n
            > first {
            Some(logical_operands(es[first].parameters))
        } else {
            None
        }),
    decreases n,
{
    if n > 0 {
        let prefix = es.take(n);
        lemma_recorded_for_one(kind, es, first, n - 1);
        assert(prefix.drop_last() =~= es.take(n - 1));
        assert(prefix.last() == es[n - 1]);
        if is_alias_at(es, n - 1) {
            let j = choose|j: int| 0 <= j < n - 1 && (#[trigger] es[j]).value == es[n - 1].value;
            assert(prefix[j].value == prefix[n - 1].value);
        }
        if is_alias_at(prefix, n - 1) {
            let j = choose|j: int|
                0 <= j < n - 1 && (#[trigger] prefix[j]).value == prefix[n - 1].value;
            assert(es[j].value == es[n - 1].value);
        }
        assert(is_alias_at(prefix, n - 1) == is_alias_at(es, n - 1));
        if n - 1 != first && !is_alias_at(es, n - 1) {
            assert(variant_symbol(kind, es[n - 1].symbol) != variant_symbol(
                kind,
                es[first].symbol,
            ));
        }
    }
}

/// The first enumerant of a value decides its operands: where no other
/// discriminant bears its name, the operands recorded for it are its own,
/// whatever parameters later enumerants of the same value have.
pub proof fn law_first_enumerant_decides_operands(
    kinds: Seq<OperandKindModel>,
    k: OperandKindModel,
    e: ValueEnumModel,
    first: int,
)
    requires
        value_enum_of(kinds, k) == Ok::<ValueEnumModel, GenErrorModel>(e),
        0 <= first < k.enumerants.len(),
        !is_alias_at(k.enumerants, first),
        forall|j: int|
            0 <= j < k.enumerants.len() && j != first && !is_alias_at(k.enumerants, j)
                ==> variant_symbol(k.kind, (#[trigger] k.enumerants[j]).symbol) != variant_symbol(
                k.kind,
                k.enumerants[first].symbol,
            ),
    ensures
        symbol_operands(e.operand_clauses, variant_symbol(k.kind, k.enumerants[first].symbol))
            == Some(logical_operands(k.enumerants[first].parameters)),
{
    let es = k.enumerants;
    law_operands_come_from_discriminants(
        kinds,
        k,
        e,
        variant_symbol(k.kind, es[first].symbol),
    );
    lemma_recorded_for_one(k.kind, es, first, es.len() as int);
    assert(es.take(es.len() as int) =~= es);
}

proof fn lemma_scan_targets(kinds: Seq<OperandKindModel>, kind: Seq<char>, es: Seq<EnumerantModel>)
    requires
        value_enum_scan(kinds, kind, es) is Ok,
    ensures
        forall|i: int|
            0 <= i < value_enum_scan(kinds, kind, es)->Ok_0.aliases.len() ==> declares(
                value_enum_scan(kinds, kind, es)->Ok_0.variants,
                (#[trigger] value_enum_scan(kinds, kind, es)->Ok_0.aliases[i]).target,
            ),
        forall|i: int|
            0 <= i < value_enum_scan(kinds, kind, es)->Ok_0.names.len() ==> declares(
                value_enum_scan(kinds, kind, es)->Ok_0.variants,
                (#[trigger] value_enum_scan(kinds, kind, es)->Ok_0.names[i]).symbol,
            ),
    decreases es.len(),
{
    if es.len() > 0 {
        let before = value_enum_scan(kinds, kind, es.drop_last())->Ok_0;
        let after = value_enum_scan(kinds, kind, es)->Ok_0;
        let e = es.last();
        lemma_scan_targets(kinds, kind, es.drop_last());
        assert forall|symbol: Seq<char>| declares(before.variants, symbol) implies declares(
            after.variants,
            symbol,
        ) by {
            let i = choose|i: int|
                0 <= i < before.variants.len() && (#[trigger] before.variants[i]).name == symbol;
            assert(after.variants[i].name == symbol);
        }
        if number_lookup(before.variants, e.value) is Some {
            let i = lemma_first_hit_some(before.variants, with_value(e.value));
        } else {
            assert(after.variants[after.variants.len() - 1].name == variant_symbol(
                kind,
                e.symbol,
            ));
        }
        assert forall|i: int| 0 <= i < after.aliases.len() implies declares(
            after.variants,
            (#[trigger] after.aliases[i]).target,
        ) by {
        }
        assert forall|i: int| 0 <= i < after.names.len() implies declares(
            after.variants,
            (#[trigger] after.names[i]).symbol,
        ) by {
        }
    }
}

/// A generated enumeration is well formed and bears the name of its
/// operand kind. In particular an alias never adds a discriminant: it stands
/// for one that the enumeration declares.
pub proof fn law_generated_enumeration_is_well_formed(
    kinds: Seq<OperandKindModel>,
    k: OperandKindModel,
    e: ValueEnumModel,
)
    requires
        value_enum_of(kinds, k) == Ok::<ValueEnumModel, GenErrorModel>(e),
    ensures
        e.name == k.kind,
        e.doc == value_enum_doc(k.kind),
        e.well_formed(),
{
    lemma_scan_keeps_heading(kinds, k.kind, k.enumerants);
    lemma_scan_targets(kinds, k.kind, k.enumerants);
    assert(value_enum_scan(kinds, k.kind, k.enumerants)->Ok_0 == e);
}

} // verus!
