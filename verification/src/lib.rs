//! Turns an in-memory grammar of an instruction-set encoding into abstract
//! type declarations: value enumerations with alias resolution, bit-flag
//! enumerations with per-flag operand lists, opcode tables, and the lookup
//! functions that go with them.

pub mod assemble;
pub mod bit_enum;
pub mod casing;
pub mod clauses;
pub mod decl;
pub mod error;
pub mod grammar;
pub mod link;
pub mod naming;
pub mod opcodes;
pub mod operands;
pub mod search;
pub mod text;
pub mod value_enum;
pub mod value_enum_laws;

pub use crate::assemble::{gen_operand_kind, gen_spirv_header};
pub use crate::bit_enum::gen_bit_enum_operand_kind;
pub use crate::error::GenError;
pub use crate::link::get_spec_link;
pub use crate::opcodes::gen_opcodes;
pub use crate::value_enum::gen_value_enum_operand_kind;
