//! The opcode-table generator, for the core instruction table and for the
//! tables of extended instruction sets. Within a table, the first
//! instruction of an opcode becomes its symbol and every later one an alias.

use vstd::prelude::*;
use vstd::string::*;
use std::collections::BTreeMap;
use crate::decl::{
    declares, number_lookup, with_value, Alias, AliasModel, OpcodeTable, OpcodeTableModel,
    Variant, VariantModel,
};
use crate::error::{modeled, GenError, GenErrorModel};
use crate::grammar::{ExtInstSetGrammar, Instruction, InstructionModel};
use crate::link::{opcodes_comment, opcodes_doc};
use crate::naming::{as_ident, ident_of, is_identifier, opcode_name, opcode_symbol};
use crate::search::{
    first_hit, lemma_first_hit_at, lemma_first_hit_none, lemma_first_hit_push,
    lemma_first_hit_some,
};

verus! {

/// A table before any instruction has been read.
pub open spec fn empty_opcode_table(name: Seq<char>, doc: Seq<char>) -> OpcodeTableModel {
    OpcodeTableModel { name, doc, opcodes: Seq::empty(), aliases: Seq::empty() }
}

/// The table after one more instruction. In a marked table the instruction's
/// name loses its marker first. If the opcode is already that of a symbol the
/// instruction becomes an alias of it, otherwise a symbol of its own.
pub open spec fn opcode_step(marked: bool, so_far: OpcodeTableModel, inst: InstructionModel) -> Result<
    OpcodeTableModel,
    GenErrorModel,
> {
    match opcode_symbol(marked, inst.opname) {
        Err(err) => Err(err),
        Ok(name) => match number_lookup(so_far.opcodes, inst.opcode) {
            Some(canonical) => Ok(
                OpcodeTableModel {
                    aliases: so_far.aliases.push(AliasModel { name, target: canonical }),
                    ..so_far
                },
            ),
            None => Ok(
                OpcodeTableModel {
                    opcodes: so_far.opcodes.push(VariantModel { name, value: inst.opcode }),
                    ..so_far
                },
            ),
        },
    }
}

/// The table after the instructions have been read in order, or the error of
/// the first instruction that cannot be read.
pub open spec fn opcode_scan(marked: bool, start: OpcodeTableModel, insts: Seq<InstructionModel>) -> Result<
    OpcodeTableModel,
    GenErrorModel,
>
    decreases insts.len(),
{
    if insts.len() == 0 {
        Ok(start)
    } else {
        match opcode_scan(marked, start, insts.drop_last()) {
            Err(err) => Err(err),
            Ok(so_far) => opcode_step(marked, so_far, insts.last()),
        }
    }
}

/// The name of the core opcode table.
pub open spec fn core_table_name() -> Seq<char> {
    "Op"@
}

/// The opcode table of the core grammar.
pub open spec fn core_opcodes_of(insts: Seq<InstructionModel>) -> Result<
    OpcodeTableModel,
    GenErrorModel,
> {
    opcode_scan(true, empty_opcode_table(core_table_name(), opcodes_doc()), insts)
}

/// The opcode table of an extended instruction set, under the name `op` and
/// with the documentation `comment`.
pub open spec fn extended_opcodes_of(
    op: Seq<char>,
    insts: Seq<InstructionModel>,
    comment: Seq<char>,
) -> Result<OpcodeTableModel, GenErrorModel> {
    match ident_of(op) {
        Err(err) => Err(err),
        Ok(name) => opcode_scan(false, empty_opcode_table(name, comment), insts),
    }
}

/// Reading one more instruction is one step from the scan of those before it.
pub proof fn lemma_opcode_scan_next(
    marked: bool,
    start: OpcodeTableModel,
    insts: Seq<InstructionModel>,
    n: int,
)
    requires
        0 <= n < insts.len(),
    ensures
        opcode_scan(marked, start, insts.take(n + 1)) == match opcode_scan(
            marked,
            start,
            insts.take(n),
        ) {
            Err(err) => Err(err),
            Ok(so_far) => opcode_step(marked, so_far, insts[n]),
        },
{
    assert(insts.take(n + 1).drop_last() =~= insts.take(n));
}

/// An error among the first `n` instructions is the error of the whole scan.
pub proof fn lemma_opcode_scan_fails(
    marked: bool,
    start: OpcodeTableModel,
    insts: Seq<InstructionModel>,
    n: int,
)
    requires
        0 <= n <= insts.len(),
        opcode_scan(marked, start, insts.take(n)) is Err,
    ensures
        opcode_scan(marked, start, insts) == opcode_scan(marked, start, insts.take(n)),
    decreases insts.len() - n,
{
    if n < insts.len() {
        lemma_opcode_scan_next(marked, start, insts, n);
        lemma_opcode_scan_fails(marked, start, insts, n + 1);
    } else {
        assert(insts.take(n) =~= insts);
    }
}

/// Generates the opcode table with the given name and documentation from a
/// list of instructions, whose names carry the marker or not.
pub fn gen_opcode_table(name: String, doc: String, marked: bool, instructions: &Vec<Instruction>) -> (r:
    Result<OpcodeTable, GenError>)
    ensures
        modeled(r) == opcode_scan(
            marked,
            empty_opcode_table(name@, doc@),
            instructions.deep_view(),
        ),
        r is Ok ==> r->Ok_0@.well_formed(),
{
    let ghost start = empty_opcode_table(name@, doc@);
    let ghost insts = instructions.deep_view();
    let mut seen: BTreeMap<u32, String> = BTreeMap::new();
    let mut out = OpcodeTable { name, doc, opcodes: Vec::new(), aliases: Vec::new() };
    proof {
        assert(out@.opcodes =~= Seq::<VariantModel>::empty());
        assert(out@.aliases =~= Seq::<AliasModel>::empty());
    }
    let mut i: usize = 0;
    while i < instructions.len()
        invariant
            i <= instructions.len(),
            insts == instructions.deep_view(),
            start == empty_opcode_table(name@, doc@),
            opcode_scan(marked, start, insts.take(i as int)) == Ok::<
                OpcodeTableModel,
                GenErrorModel,
            >(out@),
            forall|v: u32|
                number_lookup(out@.opcodes, v) == (if seen@.contains_key(v) {
                    Some(seen@[v]@)
                } else {
                    None
                }),
        decreases instructions.len() - i,
    {
        let inst = &instructions[i];
        let ghost before = out@;
        let ghost known = seen@;
        proof {
            lemma_opcode_scan_next(marked, start, insts, i as int);
        }
        let opname = match opcode_name(marked, inst.opname.as_str()) {
            Ok(opname) => opname,
            Err(err) => {
                proof {
                    lemma_opcode_scan_fails(marked, start, insts, i + 1);
                }
                return Err(err);
            },
        };
        match seen.get(&inst.opcode) {
            Some(canonical) => {
                let ghost added = AliasModel { name: opname@, target: canonical@ };
                out.aliases.push(Alias { name: opname, target: canonical.clone() });
                proof {
                    assert(out@.aliases =~= before.aliases.push(added));
                }
            },
            None => {
                let ghost added = VariantModel { name: opname@, value: inst.opcode };
                seen.insert(inst.opcode, opname.clone());
                out.opcodes.push(Variant { name: opname, value: inst.opcode });
                proof {
                    assert(out@.opcodes =~= before.opcodes.push(added));
                    assert forall|v: u32|
                        number_lookup(out@.opcodes, v) == (if seen@.contains_key(v) {
                            Some(seen@[v]@)
                        } else {
                            None
                        }) by {
                        lemma_first_hit_push(before.opcodes, added, with_value(v));
                        assert(number_lookup(before.opcodes, v) == (if known.contains_key(v) {
                            Some(known[v]@)
                        } else {
                            None
                        }));
                    }
                }
            },
        }
        i += 1;
    }
    proof {
        assert(insts.take(i as int) =~= insts);
        law_generated_table_is_well_formed(marked, name@, doc@, insts, out@);
    }
    Ok(out)
}

/// Generates the opcode table of the core grammar.
pub fn gen_core_opcodes(instructions: &Vec<Instruction>) -> (r: Result<OpcodeTable, GenError>)
    ensures
        modeled(r) == core_opcodes_of(instructions.deep_view()),
        r is Ok ==> r->Ok_0@.well_formed(),
{
    gen_opcode_table(String::from_str("Op"), opcodes_comment(), true, instructions)
}

/// Returns the opcode table of an extended instruction set.
pub fn gen_opcodes(op: &str, grammar: &ExtInstSetGrammar, comment: &str) -> (r: Result<
    OpcodeTable,
    GenError,
>)
    ensures
        modeled(r) == extended_opcodes_of(op@, grammar@.instructions, comment@),
        r is Ok ==> r->Ok_0@.well_formed() && is_identifier(r->Ok_0@.name),
{
    match as_ident(String::from_str(op)) {
        Ok(name) => {
            let r = gen_opcode_table(name, String::from_str(comment), false, &grammar.instructions);
            proof {
                if r is Ok {
                    law_generated_table_is_well_formed(
                        false,
                        op@,
                        comment@,
                        grammar@.instructions,
                        r->Ok_0@,
                    );
                }
            }
            r
        },
        Err(err) => Err(err),
    }
}

/// The probe that finds the name of an instruction with the opcode `n`.
pub open spec fn named_with_opcode(marked: bool, n: u32) -> spec_fn(InstructionModel) -> Option<
    Seq<char>,
> {
    |inst: InstructionModel|
        if inst.opcode == n {
            match opcode_symbol(marked, inst.opname) {
                Ok(name) => Some(name),
                Err(_) => None,
            }
        } else {
            None
        }
}

proof fn lemma_scan_opcodes(
    marked: bool,
    name: Seq<char>,
    doc: Seq<char>,
    insts: Seq<InstructionModel>,
)
    requires
        opcode_scan(marked, empty_opcode_table(name, doc), insts) is Ok,
    ensures
        opcode_scan(marked, empty_opcode_table(name, doc), insts)->Ok_0.name == name,
        opcode_scan(marked, empty_opcode_table(name, doc), insts)->Ok_0.doc == doc,
        forall|i: int| 0 <= i < insts.len() ==> opcode_symbol(marked, (#[trigger] insts[i]).opname) is Ok,
        forall|n: u32|
            #[trigger] number_lookup(
                opcode_scan(marked, empty_opcode_table(name, doc), insts)->Ok_0.opcodes,
                n,
            ) == first_hit(insts, named_with_opcode(marked, n)),
    decreases insts.len(),
{
    let start = empty_opcode_table(name, doc);
    if insts.len() > 0 {
        let init = insts.drop_last();
        let inst = insts.last();
        let before = opcode_scan(marked, start, init)->Ok_0;
        let after = opcode_scan(marked, start, insts)->Ok_0;
        lemma_scan_opcodes(marked, name, doc, init);
        assert forall|i: int| 0 <= i < insts.len() implies opcode_symbol(
            marked,
            (#[trigger] insts[i]).opname,
        ) is Ok by {
            if i < insts.len() - 1 {
                assert(init[i] == insts[i]);
            }
        }
        assert forall|n: u32| #[trigger]
            number_lookup(after.opcodes, n) == first_hit(insts, named_with_opcode(marked, n)) by {
            assert(number_lookup(before.opcodes, n) == first_hit(
                init,
                named_with_opcode(marked, n),
            ));
            if number_lookup(before.opcodes, inst.opcode) is None {
                let added = VariantModel {
                    name: opcode_symbol(marked, inst.opname)->Ok_0,
                    value: inst.opcode,
                };
                lemma_first_hit_push(before.opcodes, added, with_value(n));
            }
        }
    }
}

/// The numeric conversion of a generated table finds, for every number, the
/// name of the first instruction, in grammar order, with that opcode.
pub proof fn law_opcodes_convert_to_first_instruction(
    marked: bool,
    name: Seq<char>,
    doc: Seq<char>,
    insts: Seq<InstructionModel>,
    table: OpcodeTableModel,
    n: u32,
)
    requires
        opcode_scan(marked, empty_opcode_table(name, doc), insts) == Ok::<
            OpcodeTableModel,
            GenErrorModel,
        >(table),
    ensures
        number_lookup(table.opcodes, n) == first_hit(insts, named_with_opcode(marked, n)),
{
    lemma_scan_opcodes(marked, name, doc, insts);
}

/// Numeric round trip within one table: the opcode of an instruction
/// converts to the name of the first instruction with that opcode, and an
/// opcode of no instruction converts to nothing.
pub proof fn law_opcode_round_trip(
    marked: bool,
    name: Seq<char>,
    doc: Seq<char>,
    insts: Seq<InstructionModel>,
    table: OpcodeTableModel,
    first: int,
    n: u32,
)
    requires
        opcode_scan(marked, empty_opcode_table(name, doc), insts) == Ok::<
            OpcodeTableModel,
            GenErrorModel,
        >(table),
        0 <= first < insts.len(),
        forall|j: int| 0 <= j < first ==> (#[trigger] insts[j]).opcode != insts[first].opcode,
        forall|j: int| 0 <= j < insts.len() ==> (#[trigger] insts[j]).opcode != n,
    ensures
        opcode_symbol(marked, insts[first].opname) is Ok,
        number_lookup(table.opcodes, insts[first].opcode) == Some(
            opcode_symbol(marked, insts[first].opname)->Ok_0,
        ),
        number_lookup(table.opcodes, n) is None,
{
    lemma_scan_opcodes(marked, name, doc, insts);
    law_opcodes_convert_to_first_instruction(marked, name, doc, insts, table, insts[first].opcode);
    law_opcodes_convert_to_first_instruction(marked, name, doc, insts, table, n);
    lemma_first_hit_at(insts, named_with_opcode(marked, insts[first].opcode), first);
    lemma_first_hit_none(insts, named_with_opcode(marked, n));
}

proof fn lemma_scan_table(
    marked: bool,
    name: Seq<char>,
    doc: Seq<char>,
    insts: Seq<InstructionModel>,
)
    requires
        opcode_scan(marked, empty_opcode_table(name, doc), insts) is Ok,
    ensures
        forall|a: int, b: int|
            0 <= a < b < opcode_scan(
                marked,
                empty_opcode_table(name, doc),
                insts,
            )->Ok_0.opcodes.len() ==> (#[trigger] opcode_scan(
                marked,
                empty_opcode_table(name, doc),
                insts,
            )->Ok_0.opcodes[a]).value != (#[trigger] opcode_scan(
                marked,
                empty_opcode_table(name, doc),
                insts,
            )->Ok_0.opcodes[b]).value,
        forall|i: int|
            0 <= i < opcode_scan(
                marked,
                empty_opcode_table(name, doc),
                insts,
            )->Ok_0.aliases.len() ==> declares(
                opcode_scan(marked, empty_opcode_table(name, doc), insts)->Ok_0.opcodes,
                (#[trigger] opcode_scan(
                    marked,
                    empty_opcode_table(name, doc),
                    insts,
                )->Ok_0.aliases[i]).target,
            ),
        forall|i: int|
            0 <= i < opcode_scan(
                marked,
                empty_opcode_table(name, doc),
                insts,
            )->Ok_0.opcodes.len() ==> is_identifier(
                (#[trigger] opcode_scan(
                    marked,
                    empty_opcode_table(name, doc),
                    insts,
                )->Ok_0.opcodes[i]).name,
            ),
        forall|i: int|
            0 <= i < opcode_scan(
                marked,
                empty_opcode_table(name, doc),
                insts,
            )->Ok_0.aliases.len() ==> is_identifier(
                (#[trigger] opcode_scan(
                    marked,
                    empty_opcode_table(name, doc),
                    insts,
                )->Ok_0.aliases[i]).name,
            ),
    decreases insts.len(),
{
    let start = empty_opcode_table(name, doc);
    if insts.len() > 0 {
        let before = opcode_scan(marked, start, insts.drop_last())->Ok_0;
        let after = opcode_scan(marked, start, insts)->Ok_0;
        let inst = insts.last();
        lemma_scan_table(marked, name, doc, insts.drop_last());
        lemma_first_hit_none(before.opcodes, with_value(inst.opcode));
        assert forall|a: int, b: int| 0 <= a < b < after.opcodes.len() implies (
        #[trigger] after.opcodes[a]).value != (#[trigger] after.opcodes[b]).value by {
            if number_lookup(before.opcodes, inst.opcode) is None {
                if b == before.opcodes.len() {
                    assert(with_value(inst.opcode)(before.opcodes[a]) is None);
                }
            }
        }
        assert forall|symbol: Seq<char>| declares(before.opcodes, symbol) implies declares(
            after.opcodes,
            symbol,
        ) by {
            let i = choose|i: int|
                0 <= i < before.opcodes.len() && (#[trigger] before.opcodes[i]).name == symbol;
            assert(after.opcodes[i].name == symbol);
        }
        if number_lookup(before.opcodes, inst.opcode) is Some {
            lemma_first_hit_some(before.opcodes, with_value(inst.opcode));
        }
        assert forall|i: int| 0 <= i < after.aliases.len() implies declares(
            after.opcodes,
            (#[trigger] after.aliases[i]).target,
        ) by {}
        assert forall|i: int| 0 <= i < after.opcodes.len() implies is_identifier(
            (#[trigger] after.opcodes[i]).name,
        ) by {
            if i < before.opcodes.len() {
                assert(after.opcodes[i] == before.opcodes[i]);
            }
        }
        assert forall|i: int| 0 <= i < after.aliases.len() implies is_identifier(
            (#[trigger] after.aliases[i]).name,
        ) by {
            if i < before.aliases.len() {
                assert(after.aliases[i] == before.aliases[i]);
            }
        }
    }
}

/// A generated table keeps the name and the documentation it was given,
/// and its opcodes are well formed: within a table no two symbols have the
/// same opcode, and every alias stands for a symbol of the table.
pub proof fn law_generated_table_is_well_formed(
    marked: bool,
    name: Seq<char>,
    doc: Seq<char>,
    insts: Seq<InstructionModel>,
    table: OpcodeTableModel,
)
    requires
        opcode_scan(marked, empty_opcode_table(name, doc), insts) == Ok::<
            OpcodeTableModel,
            GenErrorModel,
        >(table),
    ensures
        table.name == name,
        table.doc == doc,
        table.well_formed(),
{
    lemma_scan_opcodes(marked, name, doc, insts);
    lemma_scan_table(marked, name, doc, insts);
    assert(opcode_scan(marked, empty_opcode_table(name, doc), insts)->Ok_0 == table);
}

} // verus!
