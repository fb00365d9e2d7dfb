//! The grammar as it is handed to the generators: format constants, operand
//! kinds with their enumerants, and instructions.

use vstd::prelude::*;

verus! {

/// How many times an operand may occur at its position.
#[derive(Clone, Copy, Debug, PartialEq, Eq, Structural)]
pub enum Quantifier {
    One,
    ZeroOrOne,
    ZeroOrMore,
}

/// The category of an operand kind. Only bit enumerations and value
/// enumerations lead to a declaration.
#[derive(Clone, Copy, Debug, PartialEq, Eq, Structural)]
pub enum Category {
    BitEnum,
    ValueEnum,
    Other,
}

/// One parameter of an enumerant: an operand kind, by name, and how often it occurs.
#[derive(Clone, Debug, PartialEq, Eq)]
pub struct Parameter {
    pub kind: String,
    pub quantifier: Quantifier,
}

/// The mathematical model of [`Parameter`].
pub struct ParameterModel {
    pub kind: Seq<char>,
    pub quantifier: Quantifier,
}

impl View for Parameter {
    type V = ParameterModel;

    open spec fn view(&self) -> ParameterModel {
        ParameterModel { kind: self.kind@, quantifier: self.quantifier }
    }
}

impl DeepView for Parameter {
    type V = ParameterModel;

    open spec fn deep_view(&self) -> ParameterModel {
        self@
    }
}

/// One named, valued member of an operand kind.
#[derive(Clone, Debug, PartialEq, Eq)]
pub struct Enumerant {
    pub symbol: String,
    pub value: u32,
    pub capabilities: Vec<String>,
    pub extensions: Vec<String>,
    pub parameters: Vec<Parameter>,
}

/// The mathematical model of [`Enumerant`].
pub struct EnumerantModel {
    pub symbol: Seq<char>,
    pub value: u32,
    pub capabilities: Seq<Seq<char>>,
    pub extensions: Seq<Seq<char>>,
    pub parameters: Seq<ParameterModel>,
}

impl View for Enumerant {
    type V = EnumerantModel;

    open spec fn view(&self) -> EnumerantModel {
        EnumerantModel {
            symbol: self.symbol@,
            value: self.value,
            capabilities: self.capabilities.deep_view(),
            extensions: self.extensions.deep_view(),
            parameters: self.parameters.deep_view(),
        }
    }
}

impl DeepView for Enumerant {
    type V = EnumerantModel;

    open spec fn deep_view(&self) -> EnumerantModel {
        self@
    }
}

/// A named group of enumerants.
#[derive(Clone, Debug, PartialEq, Eq)]
pub struct OperandKind {
    pub category: Category,
    pub kind: String,
    pub enumerants: Vec<Enumerant>,
}

/// The mathematical model of [`OperandKind`].
pub struct OperandKindModel {
    pub category: Category,
    pub kind: Seq<char>,
    pub enumerants: Seq<EnumerantModel>,
}

impl View for OperandKind {
    type V = OperandKindModel;

    open spec fn view(&self) -> OperandKindModel {
        OperandKindModel {
            category: self.category,
            kind: self.kind@,
            enumerants: self.enumerants.deep_view(),
        }
    }
}

impl DeepView for OperandKind {
    type V = OperandKindModel;

    open spec fn deep_view(&self) -> OperandKindModel {
        self@
    }
}

/// An instruction: its name and its opcode.
#[derive(Clone, Debug, PartialEq, Eq)]
pub struct Instruction {
    pub opname: String,
    pub opcode: u32,
}

/// The mathematical model of [`Instruction`].
pub struct InstructionModel {
    pub opname: Seq<char>,
    pub opcode: u32,
}

impl View for Instruction {
    type V = InstructionModel;

    open spec fn view(&self) -> InstructionModel {
        InstructionModel { opname: self.opname@, opcode: self.opcode }
    }
}

impl DeepView for Instruction {
    type V = InstructionModel;

    open spec fn deep_view(&self) -> InstructionModel {
        self@
    }
}

/// The grammar of the core instruction set.
#[derive(Clone, Debug, PartialEq, Eq)]
pub struct Grammar {
    pub magic_number: u32,
    pub major_version: u8,
    pub minor_version: u8,
    pub revision: u8,
    pub instructions: Vec<Instruction>,
    pub operand_kinds: Vec<OperandKind>,
}

/// The mathematical model of [`Grammar`].
pub struct GrammarModel {
    pub magic_number: u32,
    pub major_version: u8,
    pub minor_version: u8,
    pub revision: u8,
    pub instructions: Seq<InstructionModel>,
    pub operand_kinds: Seq<OperandKindModel>,
}

impl View for Grammar {
    type V = GrammarModel;

    open spec fn view(&self) -> GrammarModel {
        GrammarModel {
            magic_number: self.magic_number,
            major_version: self.major_version,
            minor_version: self.minor_version,
            revision: self.revision,
            instructions: self.instructions.deep_view(),
            operand_kinds: self.operand_kinds.deep_view(),
        }
    }
}

/// The grammar of an extended instruction set.
#[derive(Clone, Debug, PartialEq, Eq)]
pub struct ExtInstSetGrammar {
    pub instructions: Vec<Instruction>,
}

/// The mathematical model of [`ExtInstSetGrammar`].
pub struct ExtInstSetGrammarModel {
    pub instructions: Seq<InstructionModel>,
}

impl View for ExtInstSetGrammar {
    type V = ExtInstSetGrammarModel;

    open spec fn view(&self) -> ExtInstSetGrammarModel {
        ExtInstSetGrammarModel { instructions: self.instructions.deep_view() }
    }
}

} // verus!
