//! The declarations that generation produces, and the lookups they define.

use vstd::prelude::*;
use vstd::string::*;
use crate::grammar::Quantifier;
use crate::naming::is_identifier;
use crate::search::{first_hit, lemma_first_hit_at, lemma_first_hit_none};
use crate::text::same_text;

verus! {

/// One positional operand: an operand kind, by name, and how often it occurs.
#[derive(Clone, Debug, PartialEq, Eq)]
pub struct LogicalOperand {
    pub kind: String,
    pub quantifier: Quantifier,
}

/// The mathematical model of [`LogicalOperand`].
pub struct LogicalOperandModel {
    pub kind: Seq<char>,
    pub quantifier: Quantifier,
}

impl View for LogicalOperand {
    type V = LogicalOperandModel;

    open spec fn view(&self) -> LogicalOperandModel {
        LogicalOperandModel { kind: self.kind@, quantifier: self.quantifier }
    }
}

impl DeepView for LogicalOperand {
    type V = LogicalOperandModel;

    open spec fn deep_view(&self) -> LogicalOperandModel {
        self@
    }
}

/// A discriminant of a value enumeration: a symbol bound to a number.
#[derive(Clone, Debug, PartialEq, Eq)]
pub struct Variant {
    pub name: String,
    pub value: u32,
}

/// The mathematical model of [`Variant`].
pub struct VariantModel {
    pub name: Seq<char>,
    pub value: u32,
}

impl View for Variant {
    type V = VariantModel;

    open spec fn view(&self) -> VariantModel {
        VariantModel { name: self.name@, value: self.value }
    }
}

impl DeepView for Variant {
    type V = VariantModel;

    open spec fn deep_view(&self) -> VariantModel {
        self@
    }
}

/// A constant that stands for a discriminant declared earlier.
#[derive(Clone, Debug, PartialEq, Eq)]
pub struct Alias {
    pub name: String,
    pub target: String,
}

/// The mathematical model of [`Alias`].
pub struct AliasModel {
    pub name: Seq<char>,
    pub target: Seq<char>,
}

impl View for Alias {
    type V = AliasModel;

    open spec fn view(&self) -> AliasModel {
        AliasModel { name: self.name@, target: self.target@ }
    }
}

impl DeepView for Alias {
    type V = AliasModel;

    open spec fn deep_view(&self) -> AliasModel {
        self@
    }
}

/// One case of the conversion from names: a key and the symbol it stands for.
#[derive(Clone, Debug, PartialEq, Eq)]
pub struct NameArm {
    pub key: String,
    pub symbol: String,
}

/// The mathematical model of [`NameArm`].
pub struct NameArmModel {
    pub key: Seq<char>,
    pub symbol: Seq<char>,
}

impl View for NameArm {
    type V = NameArmModel;

    open spec fn view(&self) -> NameArmModel {
        NameArmModel { key: self.key@, symbol: self.symbol@ }
    }
}

impl DeepView for NameArm {
    type V = NameArmModel;

    open spec fn deep_view(&self) -> NameArmModel {
        self@
    }
}

/// The symbols that share one gating clause, a list of capabilities or of
/// extensions taken literally.
#[derive(Clone, Debug, PartialEq, Eq)]
pub struct ClauseGroup {
    pub clause: Vec<String>,
    pub symbols: Vec<String>,
}

/// The mathematical model of [`ClauseGroup`].
pub struct ClauseGroupModel {
    pub clause: Seq<Seq<char>>,
    pub symbols: Seq<Seq<char>>,
}

impl View for ClauseGroup {
    type V = ClauseGroupModel;

    open spec fn view(&self) -> ClauseGroupModel {
        ClauseGroupModel { clause: self.clause.deep_view(), symbols: self.symbols.deep_view() }
    }
}

impl DeepView for ClauseGroup {
    type V = ClauseGroupModel;

    open spec fn deep_view(&self) -> ClauseGroupModel {
        self@
    }
}

/// The operands that follow a symbol.
#[derive(Clone, Debug, PartialEq, Eq)]
pub struct OperandClause {
    pub symbol: String,
    pub operands: Vec<LogicalOperand>,
}

/// The mathematical model of [`OperandClause`].
pub struct OperandClauseModel {
    pub symbol: Seq<char>,
    pub operands: Seq<LogicalOperandModel>,
}

impl View for OperandClause {
    type V = OperandClauseModel;

    open spec fn view(&self) -> OperandClauseModel {
        OperandClauseModel { symbol: self.symbol@, operands: self.operands.deep_view() }
    }
}

impl DeepView for OperandClause {
    type V = OperandClauseModel;

    open spec fn deep_view(&self) -> OperandClauseModel {
        self@
    }
}

/// An exhaustive enumeration of mutually exclusive values.
#[derive(Clone, Debug, PartialEq, Eq)]
pub struct ValueEnum {
    pub name: String,
    pub doc: String,
    /// The discriminants, each value once, in the order of first occurrence.
    pub variants: Vec<Variant>,
    /// The constants for symbols whose value was already taken.
    pub aliases: Vec<Alias>,
    /// The cases of the conversion from names, one per enumerant.
    pub names: Vec<NameArm>,
    pub capability_clauses: Vec<ClauseGroup>,
    pub extension_clauses: Vec<ClauseGroup>,
    pub operand_clauses: Vec<OperandClause>,
}

/// The mathematical model of [`ValueEnum`].
pub struct ValueEnumModel {
    pub name: Seq<char>,
    pub doc: Seq<char>,
    pub variants: Seq<VariantModel>,
    pub aliases: Seq<AliasModel>,
    pub names: Seq<NameArmModel>,
    pub capability_clauses: Seq<ClauseGroupModel>,
    pub extension_clauses: Seq<ClauseGroupModel>,
    pub operand_clauses: Seq<OperandClauseModel>,
}

impl View for ValueEnum {
    type V = ValueEnumModel;

    open spec fn view(&self) -> ValueEnumModel {
        ValueEnumModel {
            name: self.name@,
            doc: self.doc@,
            variants: self.variants.deep_view(),
            aliases: self.aliases.deep_view(),
            names: self.names.deep_view(),
            capability_clauses: self.capability_clauses.deep_view(),
            extension_clauses: self.extension_clauses.deep_view(),
            operand_clauses: self.operand_clauses.deep_view(),
        }
    }
}

impl DeepView for ValueEnum {
    type V = ValueEnumModel;

    open spec fn deep_view(&self) -> ValueEnumModel {
        self@
    }
}

/// A named mask of a bit enumeration.
#[derive(Clone, Debug, PartialEq, Eq)]
pub struct Flag {
    pub name: String,
    pub value: u32,
}

/// The mathematical model of [`Flag`].
pub struct FlagModel {
    pub name: Seq<char>,
    pub value: u32,
}

impl View for Flag {
    type V = FlagModel;

    open spec fn view(&self) -> FlagModel {
        FlagModel { name: self.name@, value: self.value }
    }
}

impl DeepView for Flag {
    type V = FlagModel;

    open spec fn deep_view(&self) -> FlagModel {
        self@
    }
}

/// The operands that a flag adds when its bits are set.
#[derive(Clone, Debug, PartialEq, Eq)]
pub struct FlagOperands {
    pub flag: String,
    pub bits: u32,
    pub operands: Vec<LogicalOperand>,
}

/// The mathematical model of [`FlagOperands`].
pub struct FlagOperandsModel {
    pub flag: Seq<char>,
    pub bits: u32,
    pub operands: Seq<LogicalOperandModel>,
}

impl View for FlagOperands {
    type V = FlagOperandsModel;

    open spec fn view(&self) -> FlagOperandsModel {
        FlagOperandsModel { flag: self.flag@, bits: self.bits, operands: self.operands.deep_view() }
    }
}

impl DeepView for FlagOperands {
    type V = FlagOperandsModel;

    open spec fn deep_view(&self) -> FlagOperandsModel {
        self@
    }
}

/// An enumeration of masks that can be combined.
#[derive(Clone, Debug, PartialEq, Eq)]
pub struct BitEnum {
    pub name: String,
    pub doc: String,
    /// One flag per enumerant, in grammar order.
    pub flags: Vec<Flag>,
    /// The flags that carry parameters, in grammar order.
    pub flag_operands: Vec<FlagOperands>,
}

/// The mathematical model of [`BitEnum`].
pub struct BitEnumModel {
    pub name: Seq<char>,
    pub doc: Seq<char>,
    pub flags: Seq<FlagModel>,
    pub flag_operands: Seq<FlagOperandsModel>,
}

impl View for BitEnum {
    type V = BitEnumModel;

    open spec fn view(&self) -> BitEnumModel {
        BitEnumModel {
            name: self.name@,
            doc: self.doc@,
            flags: self.flags.deep_view(),
            flag_operands: self.flag_operands.deep_view(),
        }
    }
}

impl DeepView for BitEnum {
    type V = BitEnumModel;

    open spec fn deep_view(&self) -> BitEnumModel {
        self@
    }
}

/// A table of opcodes.
#[derive(Clone, Debug, PartialEq, Eq)]
pub struct OpcodeTable {
    pub name: String,
    pub doc: String,
    /// The opcodes, each number once, in the order of first occurrence.
    pub opcodes: Vec<Variant>,
    /// The constants for instructions whose opcode was already taken.
    pub aliases: Vec<Alias>,
}

/// The mathematical model of [`OpcodeTable`].
pub struct OpcodeTableModel {
    pub name: Seq<char>,
    pub doc: Seq<char>,
    pub opcodes: Seq<VariantModel>,
    pub aliases: Seq<AliasModel>,
}

impl View for OpcodeTable {
    type V = OpcodeTableModel;

    open spec fn view(&self) -> OpcodeTableModel {
        OpcodeTableModel {
            name: self.name@,
            doc: self.doc@,
            opcodes: self.opcodes.deep_view(),
            aliases: self.aliases.deep_view(),
        }
    }
}

impl DeepView for OpcodeTable {
    type V = OpcodeTableModel;

    open spec fn deep_view(&self) -> OpcodeTableModel {
        self@
    }
}

/// The declaration of an operand kind.
#[derive(Clone, Debug, PartialEq, Eq)]
pub enum KindDecl {
    Bits(BitEnum),
    Values(ValueEnum),
}

/// The mathematical model of [`KindDecl`].
pub enum KindDeclModel {
    Bits(BitEnumModel),
    Values(ValueEnumModel),
}

impl View for KindDecl {
    type V = KindDeclModel;

    open spec fn view(&self) -> KindDeclModel {
        match self {
            KindDecl::Bits(b) => KindDeclModel::Bits(b@),
            KindDecl::Values(v) => KindDeclModel::Values(v@),
        }
    }
}

impl DeepView for KindDecl {
    type V = KindDeclModel;

    open spec fn deep_view(&self) -> KindDeclModel {
        self@
    }
}

/// Everything declared for the core grammar.
#[derive(Clone, Debug, PartialEq, Eq)]
pub struct Header {
    /// The magic number as a hexadecimal literal.
    pub magic_number: String,
    pub major_version: u8,
    pub minor_version: u8,
    pub revision: u8,
    /// The declarations of the operand kinds, in grammar order.
    pub kinds: Vec<KindDecl>,
    pub opcodes: OpcodeTable,
}

/// The mathematical model of [`Header`].
pub struct HeaderModel {
    pub magic_number: Seq<char>,
    pub major_version: u8,
    pub minor_version: u8,
    pub revision: u8,
    pub kinds: Seq<KindDeclModel>,
    pub opcodes: OpcodeTableModel,
}

impl View for Header {
    type V = HeaderModel;

    open spec fn view(&self) -> HeaderModel {
        HeaderModel {
            magic_number: self.magic_number@,
            major_version: self.major_version,
            minor_version: self.minor_version,
            revision: self.revision,
            kinds: self.kinds.deep_view(),
            opcodes: self.opcodes@,
        }
    }
}

impl DeepView for Header {
    type V = HeaderModel;

    open spec fn deep_view(&self) -> HeaderModel {
        self@
    }
}

/// The model of an optional text.
pub open spec fn text_of(r: Option<&str>) -> Option<Seq<char>> {
    match r {
        Some(s) => Some(s@),
        None => None,
    }
}

/// The probe that finds the symbol of a discriminant with the value `n`.
pub open spec fn with_value(n: u32) -> spec_fn(VariantModel) -> Option<Seq<char>> {
    |v: VariantModel|
        if v.value == n {
            Some(v.name)
        } else {
            None
        }
}

/// The symbol that a number converts to: that of the first discriminant with
/// this value, if there is one.
pub open spec fn number_lookup(variants: Seq<VariantModel>, n: u32) -> Option<Seq<char>> {
    first_hit(variants, with_value(n))
}

/// Whether a symbol is that of one of the discriminants.
pub open spec fn declares(variants: Seq<VariantModel>, symbol: Seq<char>) -> bool {
    exists|i: int| 0 <= i < variants.len() && (#[trigger] variants[i]).name == symbol
}

/// Whether no two discriminants have the same value.
pub open spec fn distinct_values(variants: Seq<VariantModel>) -> bool {
    forall|a: int, b: int|
        0 <= a < b < variants.len() ==> (#[trigger] variants[a]).value != (
        #[trigger] variants[b]).value
}

/// Whether every discriminant has an identifier for its name, and every
/// alias an identifier that stands for a discriminant.
pub open spec fn names_are_sound(variants: Seq<VariantModel>, aliases: Seq<AliasModel>) -> bool {
    &&& forall|i: int| 0 <= i < variants.len() ==> is_identifier((#[trigger] variants[i]).name)
    &&& forall|i: int|
        0 <= i < aliases.len() ==> is_identifier((#[trigger] aliases[i]).name) && declares(
            variants,
            aliases[i].target,
        )
}

/// Whether a flag of this name and value is among the flags.
pub open spec fn has_flag(flags: Seq<FlagModel>, name: Seq<char>, value: u32) -> bool {
    exists|i: int| 0 <= i < flags.len() && #[trigger] flags[i] == (FlagModel { name, value })
}

impl ValueEnumModel {
    /// What holds of an enumeration that can be declared: its name and the
    /// names in it are identifiers, each value has one discriminant, and
    /// every alias and every case of the conversion from names stands for a
    /// discriminant.
    pub open spec fn well_formed(self) -> bool {
        &&& is_identifier(self.name)
        &&& distinct_values(self.variants)
        &&& names_are_sound(self.variants, self.aliases)
        &&& forall|i: int|
            0 <= i < self.names.len() ==> declares(
                self.variants,
                (#[trigger] self.names[i]).symbol,
            )
    }
}

impl OpcodeTableModel {
    /// What holds of the opcodes of a table that can be declared: the names
    /// are identifiers, each number has one symbol, and every alias stands
    /// for a symbol.
    pub open spec fn well_formed(self) -> bool {
        &&& distinct_values(self.opcodes)
        &&& names_are_sound(self.opcodes, self.aliases)
    }
}

impl BitEnumModel {
    /// What holds of an enumeration that can be declared: its name and the
    /// names of its flags are identifiers, and every case of the operand
    /// lookup belongs to a flag and has operands.
    pub open spec fn well_formed(self) -> bool {
        &&& is_identifier(self.name)
        &&& forall|i: int|
            0 <= i < self.flags.len() ==> is_identifier((#[trigger] self.flags[i]).name)
        &&& forall|i: int|
            0 <= i < self.flag_operands.len() ==> {
                let case = #[trigger] self.flag_operands[i];
                case.operands.len() > 0 && has_flag(self.flags, case.flag, case.bits)
            }
    }
}

impl KindDeclModel {
    /// What holds of a declaration that can be declared.
    pub open spec fn well_formed(self) -> bool {
        match self {
            KindDeclModel::Bits(bits) => bits.well_formed(),
            KindDeclModel::Values(values) => values.well_formed(),
        }
    }
}

impl HeaderModel {
    /// What holds of a unit that can be declared: all its parts can.
    pub open spec fn well_formed(self) -> bool {
        &&& self.opcodes.well_formed()
        &&& forall|i: int| 0 <= i < self.kinds.len() ==> (#[trigger] self.kinds[i]).well_formed()
    }
}

/// The probe that finds the symbol of a case with the key `name`.
pub open spec fn with_key(name: Seq<char>) -> spec_fn(NameArmModel) -> Option<Seq<char>> {
    |arm: NameArmModel|
        if arm.key == name {
            Some(arm.symbol)
        } else {
            None
        }
}

/// The symbol that a name converts to: that of the first case with exactly
/// this key, if there is one.
pub open spec fn name_lookup(names: Seq<NameArmModel>, name: Seq<char>) -> Option<Seq<char>> {
    first_hit(names, with_key(name))
}

/// Whether every bit of `bits` is set in `set`.
pub open spec fn contains_bits(set: u32, bits: u32) -> bool {
    set & bits == bits
}

/// The probe that finds the operands of the flag `flag`, if `set` contains its bits.
pub open spec fn with_flag_in(set: u32, flag: Seq<char>) -> spec_fn(FlagOperandsModel) -> Option<
    Seq<LogicalOperandModel>,
> {
    |case: FlagOperandsModel|
        if case.flag == flag && contains_bits(set, case.bits) {
            Some(case.operands)
        } else {
            None
        }
}

/// The operands that the flag `flag` adds to the flag set `set`: those of the
/// first case for this flag whose bits `set` contains.
pub open spec fn flag_lookup(cases: Seq<FlagOperandsModel>, set: u32, flag: Seq<char>) -> Option<
    Seq<LogicalOperandModel>,
> {
    first_hit(cases, with_flag_in(set, flag))
}

/// Finds the symbol of the first discriminant with the value `n`.
pub fn find_by_number(variants: &Vec<Variant>, n: u32) -> (r: Option<&str>)
    ensures
        text_of(r) == number_lookup(variants.deep_view(), n),
{
    let mut i: usize = 0;
    while i < variants.len()
        invariant
            i <= variants.len(),
            forall|j: int|
                0 <= j < i ==> (#[trigger] with_value(n)(variants.deep_view()[j])) is None,
        decreases variants.len() - i,
    {
        if variants[i].value == n {
            proof {
                lemma_first_hit_at(variants.deep_view(), with_value(n), i as int);
            }
            return Some(variants[i].name.as_str());
        }
        i += 1;
    }
    proof {
        lemma_first_hit_none(variants.deep_view(), with_value(n));
    }
    None
}

impl ValueEnum {
    /// Converts a number to the symbol of the discriminant with that value.
    pub fn from_number(&self, n: u32) -> (r: Option<&str>)
        ensures
            text_of(r) == number_lookup(self@.variants, n),
    {
        find_by_number(&self.variants, n)
    }

    /// Converts a name to the symbol it stands for. The name must match a
    /// key exactly, character by character.
    pub fn from_name(&self, name: &str) -> (r: Result<&str, ()>)
        ensures
            match r {
                Ok(s) => name_lookup(self@.names, name@) == Some(s@),
                Err(_) => name_lookup(self@.names, name@) is None,
            },
    {
        let mut i: usize = 0;
        while i < self.names.len()
            invariant
                i <= self.names.len(),
                forall|j: int|
                    0 <= j < i ==> (#[trigger] with_key(name@)(self.names.deep_view()[j])) is None,
            decreases self.names.len() - i,
        {
            if same_text(self.names[i].key.as_str(), name) {
                proof {
                    lemma_first_hit_at(self.names.deep_view(), with_key(name@), i as int);
                }
                return Ok(self.names[i].symbol.as_str());
            }
            i += 1;
        }
        proof {
            lemma_first_hit_none(self.names.deep_view(), with_key(name@));
        }
        Err(())
    }
}

impl OpcodeTable {
    /// Converts a number to the symbol of the opcode with that number.
    pub fn from_number(&self, n: u32) -> (r: Option<&str>)
        ensures
            text_of(r) == number_lookup(self@.opcodes, n),
    {
        find_by_number(&self.opcodes, n)
    }
}

impl BitEnum {
    /// The operands that the flag named `flag` adds to the flag set `set`:
    /// those of the first case for this flag whose bits are all set in `set`.
    pub fn operands_of(&self, set: u32, flag: &str) -> (r: Option<&Vec<LogicalOperand>>)
        ensures
            match r {
                Some(ops) => flag_lookup(self@.flag_operands, set, flag@) == Some(ops.deep_view()),
                None => flag_lookup(self@.flag_operands, set, flag@) is None,
            },
    {
        let mut i: usize = 0;
        while i < self.flag_operands.len()
            invariant
                i <= self.flag_operands.len(),
                forall|j: int|
                    0 <= j < i ==> (#[trigger] with_flag_in(set, flag@)(
                        self.flag_operands.deep_view()[j],
                    )) is None,
            decreases self.flag_operands.len() - i,
        {
            let case = &self.flag_operands[i];
            if set & case.bits == case.bits && same_text(case.flag.as_str(), flag) {
                proof {
                    lemma_first_hit_at(
                        self.flag_operands.deep_view(),
                        with_flag_in(set, flag@),
                        i as int,
                    );
                }
                return Some(&case.operands);
            }
            i += 1;
        }
        proof {
            lemma_first_hit_none(self.flag_operands.deep_view(), with_flag_in(set, flag@));
        }
        None
    }
}

} // verus!
