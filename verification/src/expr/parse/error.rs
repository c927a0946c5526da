//! Why a list of tokens is no expression.

use crate::expr::ast::GroupDelimeter;
use crate::expr::token;
use vstd::prelude::*;
use vstd::std_specs::convert::FromSpecImpl;

verus! {

/// What the parser can find wrong in a list of tokens.
#[derive(Debug, Clone)]
pub enum Kind {
    /// The input was unexpectedly empty.
    UnexpectedEndOfInut,
    /// An unexpected kind of token was found.
    UnexpectedToken { expected: Vec<token::Kind>, found: token::Kind },
    /// The token is not valid as a prefix.
    InvalidPrefix,
    /// A group wasn't closed.
    UnclosedGroup { expeted: GroupDelimeter },
    Binary(KindBinary),
}

/// What can be wrong with a binary operator.
#[derive(Debug, Clone, Copy, PartialEq, Eq, Structural)]
pub enum KindBinary {
    InvalidRhs,
}

impl From<KindBinary> for Kind {
    fn from(value: KindBinary) -> (kind: Self) {
        Kind::Binary(value)
    }
}

impl FromSpecImpl<KindBinary> for Kind {
    open spec fn obeys_from_spec() -> bool {
        true
    }

    open spec fn from_spec(value: KindBinary) -> Self {
        Kind::Binary(value)
    }
}

/// The mathematical value of a [`Kind`].
pub enum KindModel {
    UnexpectedEndOfInut,
    UnexpectedToken { expected: Seq<token::Kind>, found: token::Kind },
    InvalidPrefix,
    UnclosedGroup { expeted: GroupDelimeter },
    Binary(KindBinary),
}

impl View for Kind {
    type V = KindModel;

    open spec fn view(&self) -> KindModel {
        match self {
            Kind::UnexpectedEndOfInut => KindModel::UnexpectedEndOfInut,
            Kind::UnexpectedToken { expected, found } => KindModel::UnexpectedToken {
                expected: expected@,
                found: *found,
            },
            Kind::InvalidPrefix => KindModel::InvalidPrefix,
            Kind::UnclosedGroup { expeted } => KindModel::UnclosedGroup { expeted: *expeted },
            Kind::Binary(kind) => KindModel::Binary(*kind),
        }
    }
}

impl DeepView for Kind {
    type V = KindModel;

    open spec fn deep_view(&self) -> KindModel {
        self@
    }
}

} // verus!
