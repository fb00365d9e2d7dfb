//! The operand-list builder: the parameters of an enumerant, resolved against
//! the grammar's operand kinds, as the operands that follow the enumerant.

use vstd::prelude::*;
use vstd::string::*;
use crate::decl::{LogicalOperand, LogicalOperandModel};
use crate::error::{modeled, GenError, GenErrorModel};
use crate::grammar::{OperandKind, OperandKindModel, Parameter, ParameterModel};
use crate::naming::{as_ident, is_identifier};
use crate::search::{first_hit, lemma_first_hit_at, lemma_first_hit_none};
use crate::text::same_text;

verus! {

/// Whether the grammar defines an operand kind of this name.
pub open spec fn names_kind(kinds: Seq<OperandKindModel>, name: Seq<char>) -> bool {
    exists|i: int| 0 <= i < kinds.len() && (#[trigger] kinds[i]).kind == name
}

/// What is wrong with one parameter, if anything: its kind is no identifier,
/// or it is the name of no operand kind.
pub open spec fn parameter_error(kinds: Seq<OperandKindModel>) -> spec_fn(ParameterModel) -> Option<
    GenErrorModel,
> {
    |p: ParameterModel|
        if !is_identifier(p.kind) {
            Some(GenErrorModel::MalformedSymbol(p.kind))
        } else if !names_kind(kinds, p.kind) {
            Some(GenErrorModel::UnknownOperandKind(p.kind))
        } else {
            None
        }
}

/// The operand that a parameter describes.
pub open spec fn logical_operand(p: ParameterModel) -> LogicalOperandModel {
    LogicalOperandModel { kind: p.kind, quantifier: p.quantifier }
}

/// The operands that a list of parameters describes: one per parameter, in order.
pub open spec fn logical_operands(ps: Seq<ParameterModel>) -> Seq<LogicalOperandModel> {
    Seq::new(ps.len(), |i: int| logical_operand(ps[i]))
}

/// What [`build_operands`] returns: the operands, unless a parameter is in
/// error; then the error of the first such parameter.
pub open spec fn built_operands(kinds: Seq<OperandKindModel>, ps: Seq<ParameterModel>) -> Result<
    Seq<LogicalOperandModel>,
    GenErrorModel,
> {
    match first_hit(ps, parameter_error(kinds)) {
        Some(e) => Err(e),
        None => Ok(logical_operands(ps)),
    }
}

/// Whether the grammar defines an operand kind of this name.
pub fn is_known_kind(kinds: &Vec<OperandKind>, name: &str) -> (r: bool)
    ensures
        r == names_kind(kinds.deep_view(), name@),
{
    let mut i: usize = 0;
    while i < kinds.len()
        invariant
            i <= kinds.len(),
            forall|j: int| 0 <= j < i ==> (#[trigger] kinds.deep_view()[j]).kind != name@,
        decreases kinds.len() - i,
    {
        if same_text(kinds[i].kind.as_str(), name) {
            assert(kinds.deep_view()[i as int].kind == name@);
            return true;
        }
        i += 1;
    }
    false
}

/// Builds the operands that a list of parameters describes, one per
/// parameter and in the same order.
pub fn build_operands(parameters: &Vec<Parameter>, kinds: &Vec<OperandKind>) -> (r: Result<
    Vec<LogicalOperand>,
    GenError,
>)
    ensures
        modeled(r) == built_operands(kinds.deep_view(), parameters.deep_view()),
{
    let ghost ps = parameters.deep_view();
    let ghost check = parameter_error(kinds.deep_view());
    let mut out: Vec<LogicalOperand> = Vec::new();
    let mut i: usize = 0;
    while i < parameters.len()
        invariant
            i <= parameters.len(),
            ps == parameters.deep_view(),
            check == parameter_error(kinds.deep_view()),
            forall|j: int| 0 <= j < i ==> (#[trigger] check(ps[j])) is None,
            out.len() == i,
            forall|j: int| 0 <= j < i ==> out[j]@ == logical_operand(#[trigger] ps[j]),
        decreases parameters.len() - i,
    {
        let p = &parameters[i];
        let kind = match as_ident(p.kind.clone()) {
            Ok(kind) => kind,
            Err(e) => {
                proof {
                    lemma_first_hit_at(ps, check, i as int);
                }
                return Err(e);
            },
        };
        if !is_known_kind(kinds, kind.as_str()) {
            proof {
                lemma_first_hit_at(ps, check, i as int);
            }
            return Err(GenError::UnknownOperandKind(kind));
        }
        out.push(LogicalOperand { kind, quantifier: p.quantifier });
        i += 1;
    }
    proof {
        lemma_first_hit_none(ps, check);
        assert(out.deep_view() =~= logical_operands(ps));
    }
    Ok(out)
}

} // verus!
