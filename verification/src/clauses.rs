//! Side tables of a value enumeration: the symbols behind each gating clause
//! and the operands behind each symbol. A table keeps its entries in the order
//! in which their keys first came, and compares keys literally.

use vstd::prelude::*;
use vstd::string::*;
use crate::decl::{
    ClauseGroup, ClauseGroupModel, LogicalOperand, LogicalOperandModel, OperandClause,
    OperandClauseModel,
};
use crate::search::{
    first_hit, lemma_first_hit_at, lemma_first_hit_none, lemma_first_hit_push,
    lemma_first_hit_same, lemma_first_hit_some,
};
use crate::text::{copy_texts, same_text, same_texts};

verus! {

/// The groups after `symbol` has joined the group of `clause`: the first
/// group with exactly this clause, or a new last group if there is none.
pub open spec fn grouped(
    groups: Seq<ClauseGroupModel>,
    clause: Seq<Seq<char>>,
    symbol: Seq<char>,
) -> Seq<ClauseGroupModel>
    decreases groups.len(),
{
    if groups.len() == 0 {
        seq![ClauseGroupModel { clause, symbols: seq![symbol] }]
    } else if groups[0].clause == clause {
        groups.update(0, ClauseGroupModel { clause, symbols: groups[0].symbols.push(symbol) })
    } else {
        seq![groups[0]] + grouped(groups.skip(1), clause, symbol)
    }
}

/// The operand table after `operands` have been added for `symbol`: appended
/// to the first entry for this symbol, or in a new last entry if there is none.
pub open spec fn attached(
    clauses: Seq<OperandClauseModel>,
    symbol: Seq<char>,
    operands: Seq<LogicalOperandModel>,
) -> Seq<OperandClauseModel>
    decreases clauses.len(),
{
    if clauses.len() == 0 {
        seq![OperandClauseModel { symbol, operands }]
    } else if clauses[0].symbol == symbol {
        clauses.update(0, OperandClauseModel { symbol, operands: clauses[0].operands + operands })
    } else {
        seq![clauses[0]] + attached(clauses.skip(1), symbol, operands)
    }
}

proof fn lemma_grouped_skip(
    groups: Seq<ClauseGroupModel>,
    clause: Seq<Seq<char>>,
    symbol: Seq<char>,
    i: int,
)
    requires
        0 <= i < groups.len(),
        groups[i].clause != clause,
    ensures
        groups.take(i) + grouped(groups.skip(i), clause, symbol) == groups.take(i + 1) + grouped(
            groups.skip(i + 1),
            clause,
            symbol,
        ),
{
    assert(groups.skip(i).skip(1) =~= groups.skip(i + 1));
}

proof fn lemma_attached_skip(
    clauses: Seq<OperandClauseModel>,
    symbol: Seq<char>,
    operands: Seq<LogicalOperandModel>,
    i: int,
)
    requires
        0 <= i < clauses.len(),
        clauses[i].symbol != symbol,
    ensures
        clauses.take(i) + attached(clauses.skip(i), symbol, operands) == clauses.take(i + 1)
            + attached(clauses.skip(i + 1), symbol, operands),
{
    assert(clauses.skip(i).skip(1) =~= clauses.skip(i + 1));
}

/// Adds a symbol to the group of a clause.
pub fn add_to_group(groups: &mut Vec<ClauseGroup>, clause: &Vec<String>, symbol: String)
    ensures
        final(groups).deep_view() == grouped(
            old(groups).deep_view(),
            clause.deep_view(),
            symbol@,
        ),
{
    let ghost before = groups.deep_view();
    let ghost key = clause.deep_view();
    let mut i: usize = 0;
    proof {
        assert(before.take(0) + grouped(before.skip(0), key, symbol@) =~= grouped(
            before,
            key,
            symbol@,
        )) by {
            assert(before.skip(0) =~= before);
        }
    }
    while i < groups.len()
        invariant
            i <= groups.len(),
            groups.deep_view() == before,
            before == old(groups).deep_view(),
            key == clause.deep_view(),
            grouped(before, key, symbol@) == before.take(i as int) + grouped(
                before.skip(i as int),
                key,
                symbol@,
            ),
        decreases groups.len() - i,
    {
        if same_texts(&groups[i].clause, clause) {
            let ghost joined = groups[i as int].symbols.deep_view().push(symbol@);
            groups[i].symbols.push(symbol);
            proof {
                assert(groups[i as int].symbols.deep_view() =~= joined);
            }
            return ;
        }
        proof {
            lemma_grouped_skip(before, key, symbol@, i as int);
        }
        i += 1;
    }
    let mut symbols: Vec<String> = Vec::new();
    symbols.push(symbol);
    groups.push(ClauseGroup { clause: copy_texts(clause), symbols });
    proof {
        assert(symbols.deep_view() =~= seq![symbol@]);
    }
}

/// Adds operands to the entry of a symbol.
pub fn attach_operands(
    clauses: &mut Vec<OperandClause>,
    symbol: String,
    operands: Vec<LogicalOperand>,
)
    ensures
        final(clauses).deep_view() == attached(
            old(clauses).deep_view(),
            symbol@,
            operands.deep_view(),
        ),
{
    let ghost before = clauses.deep_view();
    let ghost added = operands.deep_view();
    let mut i: usize = 0;
    proof {
        assert(before.take(0) + attached(before.skip(0), symbol@, added) =~= attached(
            before,
            symbol@,
            added,
        )) by {
            assert(before.skip(0) =~= before);
        }
    }
    while i < clauses.len()
        invariant
            i <= clauses.len(),
            clauses.deep_view() == before,
            before == old(clauses).deep_view(),
            added == operands.deep_view(),
            attached(before, symbol@, added) == before.take(i as int) + attached(
                before.skip(i as int),
                symbol@,
                added,
            ),
        decreases clauses.len() - i,
    {
        if same_text(clauses[i].symbol.as_str(), symbol.as_str()) {
            let ghost joined = clauses[i as int].operands.deep_view() + added;
            let mut operands = operands;
            clauses[i].operands.append(&mut operands);
            proof {
                assert(clauses[i as int].operands.deep_view() =~= joined);
            }
            return ;
        }
        proof {
            lemma_attached_skip(before, symbol@, added, i as int);
        }
        i += 1;
    }
    clauses.push(OperandClause { symbol, operands });
}

/// The probe that finds the symbols of a group with the clause `clause`.
pub open spec fn with_clause(clause: Seq<Seq<char>>) -> spec_fn(ClauseGroupModel) -> Option<
    Seq<Seq<char>>,
> {
    |g: ClauseGroupModel|
        if g.clause == clause {
            Some(g.symbols)
        } else {
            None
        }
}

/// The symbols gated by a clause: those of the first group with exactly
/// this clause, if there is one.
pub open spec fn clause_members(groups: Seq<ClauseGroupModel>, clause: Seq<Seq<char>>) -> Option<
    Seq<Seq<char>>,
> {
    first_hit(groups, with_clause(clause))
}

/// The probe that finds the operands of an entry for the symbol `symbol`.
pub open spec fn with_symbol(symbol: Seq<char>) -> spec_fn(OperandClauseModel) -> Option<
    Seq<LogicalOperandModel>,
> {
    |c: OperandClauseModel|
        if c.symbol == symbol {
            Some(c.operands)
        } else {
            None
        }
}

/// The operands recorded for a symbol: those of the first entry for it, if
/// there is one.
pub open spec fn symbol_operands(clauses: Seq<OperandClauseModel>, symbol: Seq<char>) -> Option<
    Seq<LogicalOperandModel>,
> {
    first_hit(clauses, with_symbol(symbol))
}

proof fn lemma_grouped_at(
    groups: Seq<ClauseGroupModel>,
    clause: Seq<Seq<char>>,
    symbol: Seq<char>,
    i: int,
)
    requires
        0 <= i < groups.len(),
        groups[i].clause == clause,
        forall|j: int| 0 <= j < i ==> (#[trigger] groups[j]).clause != clause,
    ensures
        grouped(groups, clause, symbol) == groups.update(
            i,
            ClauseGroupModel { clause, symbols: groups[i].symbols.push(symbol) },
        ),
    decreases i,
{
    if i > 0 {
        let rest = groups.skip(1);
        assert forall|j: int| 0 <= j < i - 1 implies (#[trigger] rest[j]).clause != clause by {}
        lemma_grouped_at(rest, clause, symbol, i - 1);
    }
}

proof fn lemma_grouped_new(
    groups: Seq<ClauseGroupModel>,
    clause: Seq<Seq<char>>,
    symbol: Seq<char>,
)
    requires
        forall|j: int| 0 <= j < groups.len() ==> (#[trigger] groups[j]).clause != clause,
    ensures
        grouped(groups, clause, symbol) == groups.push(
            ClauseGroupModel { clause, symbols: seq![symbol] },
        ),
    decreases groups.len(),
{
    if groups.len() > 0 {
        let rest = groups.skip(1);
        assert forall|j: int| 0 <= j < rest.len() implies (#[trigger] rest[j]).clause != clause by {}
        lemma_grouped_new(rest, clause, symbol);
    }
}

proof fn lemma_attached_at(
    clauses: Seq<OperandClauseModel>,
    symbol: Seq<char>,
    operands: Seq<LogicalOperandModel>,
    i: int,
)
    requires
        0 <= i < clauses.len(),
        clauses[i].symbol == symbol,
        forall|j: int| 0 <= j < i ==> (#[trigger] clauses[j]).symbol != symbol,
    ensures
        attached(clauses, symbol, operands) == clauses.update(
            i,
            OperandClauseModel { symbol, operands: clauses[i].operands + operands },
        ),
    decreases i,
{
    if i > 0 {
        let rest = clauses.skip(1);
        assert forall|j: int| 0 <= j < i - 1 implies (#[trigger] rest[j]).symbol != symbol by {}
        lemma_attached_at(rest, symbol, operands, i - 1);
    }
}

proof fn lemma_attached_new(
    clauses: Seq<OperandClauseModel>,
    symbol: Seq<char>,
    operands: Seq<LogicalOperandModel>,
)
    requires
        forall|j: int| 0 <= j < clauses.len() ==> (#[trigger] clauses[j]).symbol != symbol,
    ensures
        attached(clauses, symbol, operands) == clauses.push(OperandClauseModel { symbol, operands }),
    decreases clauses.len(),
{
    if clauses.len() > 0 {
        let rest = clauses.skip(1);
        assert forall|j: int| 0 <= j < rest.len() implies (#[trigger] rest[j]).symbol != symbol by {}
        lemma_attached_new(rest, symbol, operands);
    }
}

/// Grouping a symbol under a clause adds it at the end of the symbols gated
/// by exactly this clause, and changes the symbols of no other clause.
/// Clauses are compared literally: the same names in another order are
/// another clause.
pub proof fn law_grouping_touches_one_clause(
    groups: Seq<ClauseGroupModel>,
    clause: Seq<Seq<char>>,
    symbol: Seq<char>,
    other: Seq<Seq<char>>,
)
    ensures
        clause_members(grouped(groups, clause, symbol), clause) == Some(
            match clause_members(groups, clause) {
                Some(members) => members.push(symbol),
                None => seq![symbol],
            },
        ),
        other != clause ==> clause_members(grouped(groups, clause, symbol), other)
            == clause_members(groups, other),
{
    let after = grouped(groups, clause, symbol);
    if clause_members(groups, clause) is None {
        let fresh = ClauseGroupModel { clause, symbols: seq![symbol] };
        lemma_first_hit_none(groups, with_clause(clause));
        assert forall|j: int| 0 <= j < groups.len() implies (#[trigger] groups[j]).clause
            != clause by {
            assert(with_clause(clause)(groups[j]) is None);
        }
        lemma_grouped_new(groups, clause, symbol);
        lemma_first_hit_push(groups, fresh, with_clause(clause));
        lemma_first_hit_push(groups, fresh, with_clause(other));
    } else {
        let i = lemma_first_hit_some(groups, with_clause(clause));
        assert forall|j: int| 0 <= j < i implies (#[trigger] groups[j]).clause != clause by {
            assert(with_clause(clause)(groups[j]) is None);
        }
        lemma_grouped_at(groups, clause, symbol, i);
        assert forall|j: int| 0 <= j < i implies (#[trigger] with_clause(clause)(
            after[j],
        )) is None by {}
        lemma_first_hit_at(after, with_clause(clause), i);
        if other != clause {
            lemma_first_hit_same(after, groups, with_clause(other));
        }
    }
}

/// Attaching operands to a symbol adds them at the end of the operands
/// recorded for exactly this symbol, and changes those of no other symbol.
pub proof fn law_attaching_touches_one_symbol(
    clauses: Seq<OperandClauseModel>,
    symbol: Seq<char>,
    operands: Seq<LogicalOperandModel>,
    other: Seq<char>,
)
    ensures
        symbol_operands(attached(clauses, symbol, operands), symbol) == Some(
            match symbol_operands(clauses, symbol) {
                Some(recorded) => recorded + operands,
                None => operands,
            },
        ),
        other != symbol ==> symbol_operands(attached(clauses, symbol, operands), other)
            == symbol_operands(clauses, other),
{
    let after = attached(clauses, symbol, operands);
    if symbol_operands(clauses, symbol) is None {
        let fresh = OperandClauseModel { symbol, operands };
        lemma_first_hit_none(clauses, with_symbol(symbol));
        assert forall|j: int| 0 <= j < clauses.len() implies (#[trigger] clauses[j]).symbol
            != symbol by {
            assert(with_symbol(symbol)(clauses[j]) is None);
        }
        lemma_attached_new(clauses, symbol, operands);
        lemma_first_hit_push(clauses, fresh, with_symbol(symbol));
        lemma_first_hit_push(clauses, fresh, with_symbol(other));
    } else {
        let i = lemma_first_hit_some(clauses, with_symbol(symbol));
        assert forall|j: int| 0 <= j < i implies (#[trigger] clauses[j]).symbol != symbol by {
            assert(with_symbol(symbol)(clauses[j]) is None);
        }
        lemma_attached_at(clauses, symbol, operands, i);
        assert forall|j: int| 0 <= j < i implies (#[trigger] with_symbol(symbol)(
            after[j],
        )) is None by {}
        lemma_first_hit_at(after, with_symbol(symbol), i);
        if other != symbol {
            lemma_first_hit_same(after, clauses, with_symbol(other));
        }
    }
}

} // verus!
