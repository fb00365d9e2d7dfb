//! The ways in which generation can fail.

use vstd::prelude::*;
use vstd::string::*;

verus! {

/// A defect in the grammar that aborts a generation pass.
#[derive(Clone, Debug, PartialEq, Eq)]
pub enum GenError {
    /// The text cannot be used as an identifier.
    MalformedSymbol(String),
    /// A parameter names an operand kind that the grammar does not define.
    UnknownOperandKind(String),
}

/// Mathematical model of a [`GenError`].
pub enum GenErrorModel {
    MalformedSymbol(Seq<char>),
    UnknownOperandKind(Seq<char>),
}

impl View for GenError {
    type V = GenErrorModel;

    open spec fn view(&self) -> GenErrorModel {
        match self {
            GenError::MalformedSymbol(s) => GenErrorModel::MalformedSymbol(s@),
            GenError::UnknownOperandKind(s) => GenErrorModel::UnknownOperandKind(s@),
        }
    }
}

impl DeepView for GenError {
    type V = GenErrorModel;

    open spec fn deep_view(&self) -> GenErrorModel {
        self@
    }
}

/// The model of a fallible result: the model of the value or of the error.
pub open spec fn modeled<T: DeepView>(r: Result<T, GenError>) -> Result<T::V, GenErrorModel> {
    match r {
        Ok(v) => Ok(v.deep_view()),
        Err(e) => Err(e@),
    }
}

/// The sentence that says what is wrong.
pub open spec fn message_of(e: GenErrorModel) -> Seq<char> {
    match e {
        GenErrorModel::MalformedSymbol(text) => "`"@ + text + "` cannot be used as an identifier"@,
        GenErrorModel::UnknownOperandKind(name) => "`"@ + name
            + "` is not an operand kind of the grammar"@,
    }
}

impl GenError {
    /// A sentence that says what is wrong, for a reader of the grammar.
    pub fn message(&self) -> (r: String)
        ensures
            r@ == message_of(self@),
    {
        let mut out = String::from_str("`");
        match self {
            GenError::MalformedSymbol(text) => {
                out.append(text.as_str());
                out.append("` cannot be used as an identifier");
            },
            GenError::UnknownOperandKind(name) => {
                out.append(name.as_str());
                out.append("` is not an operand kind of the grammar");
            },
        }
        out
    }
}

} // verus!
