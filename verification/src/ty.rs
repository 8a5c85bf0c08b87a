//! The front-end type lattice: two nominal types, `Int` and `Bool`.
//!
//! Surface integers are represented as bit-vectors of the fixed width
//! [`PY_INT_SIZE`]; each type maps to exactly one IR sort.
use vstd::prelude::*;
use crate::ir::Sort;
use crate::ir::Term;
use crate::ir::TermV;
use crate::circify::CirCtx;
use crate::term::PyTerm;
use crate::term::PyTermData;
use crate::term::PyTermV;

verus! {

/// The fixed bit-width of surface integers.
pub const PY_INT_SIZE: u32 = 32;

/// A surface type.
#[derive(Clone, Copy, Debug, PartialEq, Eq, Structural)]
pub enum Ty {
    Int,
    Bool,
}

/// The IR sort a type maps to.
pub open spec fn spec_sort(t: Ty) -> Sort {
    match t {
        Ty::Bool => Sort::Bool,
        Ty::Int => Sort::BitVector(PY_INT_SIZE),
    }
}

/// The model of the canonical default value of a type: `false`, or zero at
/// width [`PY_INT_SIZE`].
pub open spec fn spec_default(t: Ty) -> PyTermV {
    match t {
        Ty::Bool => PyTermV::Bool(TermV::BoolLit(false)),
        Ty::Int => PyTermV::Int(TermV::BvLit(0, PY_INT_SIZE)),
    }
}

impl Ty {
    /// The IR sort of this type.
    pub fn sort(&self) -> (s: Sort)
        ensures
            s == spec_sort(*self),
    {
        match self {
            Ty::Bool => Sort::Bool,
            Ty::Int => Sort::BitVector(PY_INT_SIZE),
        }
    }

    /// The default IR term of this type's sort.
    fn default_ir_term(&self) -> (r: Term)
        ensures
            r@ == crate::term::spec_inner(spec_default(*self)),
    {
        match self {
            Ty::Bool => Term::BoolLit(false),
            Ty::Int => Term::BvLit(0, PY_INT_SIZE),
        }
    }

    /// The canonical zero/false value of this type.
    pub fn default(&self, _ctx: &CirCtx) -> (r: PyTerm)
        ensures
            r@ == spec_default(*self),
    {
        match self {
            Ty::Bool => PyTerm { term: PyTermData::Bool(self.default_ir_term()) },
            Ty::Int => PyTerm { term: PyTermData::Int(self.default_ir_term()) },
        }
    }

    /// Parses a type annotation: exactly `"int"` and `"bool"` are types.
    pub fn from_str(s: &str) -> (r: Result<Ty, crate::errors::PyError>)
        ensures
            r == spec_ty_from_str(s@),
    {
        if crate::strutil::str_eq(s, "int") {
            Ok(Ty::Int)
        } else if crate::strutil::str_eq(s, "bool") {
            Ok(Ty::Bool)
        } else {
            Err(crate::errors::PyError::UnknownType)
        }
    }
}

/// The parse relation of type annotations.
pub open spec fn spec_ty_from_str(s: Seq<char>) -> Result<Ty, crate::errors::PyError> {
    if s == "int"@ {
        Ok(Ty::Int)
    } else if s == "bool"@ {
        Ok(Ty::Bool)
    } else {
        Err(crate::errors::PyError::UnknownType)
    }
}

} // verus!
