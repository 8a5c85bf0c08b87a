//! Built-in call handling that works on syntax: the `range` builtin,
//! whose arguments must be positional integer literals, and the decimal
//! reading of integer literals, narrowed to the fixed width with
//! wrap-around.
use vstd::prelude::*;
use vstd::arithmetic::power2::pow2;
use vstd::arithmetic::power2::lemma2_to64;
use crate::ast::AstArg;
use crate::ast::AstExpr;
use crate::ast::ArgV;
use crate::ast::ExprV;
use crate::ast::arg_views;
use crate::ast::lemma_arg_views;
use crate::errors::PyError;
use crate::ir::bv_norm;
use crate::ir::to_signed;
use crate::ty::PY_INT_SIZE;

verus! {

/// Whether a byte string is one or more decimal digits.
pub open spec fn is_dec_digits(digits: Seq<u8>) -> bool {
    digits.len() >= 1 && forall|i: int| 0 <= i < digits.len() ==> 48 <= #[trigger] digits[i] <= 57
}

/// The value of a decimal digit string, reduced modulo `2^32` — integer
/// literals wider than the fixed width wrap around.
pub open spec fn wrap_decimal(digits: Seq<u8>) -> u32
    decreases digits,
{
    if digits.len() == 0 {
        0
    } else {
        bv_norm(PY_INT_SIZE, wrap_decimal(digits.drop_last()) * 10 + (digits.last() - 48))
    }
}

/// Reads a decimal digit string, wrapping modulo `2^32`.
pub fn parse_int_literal(digits: &Vec<u8>) -> (r: Result<u32, PyError>)
    ensures
        is_dec_digits(digits@) ==> r == Ok::<u32, PyError>(wrap_decimal(digits@)),
        !is_dec_digits(digits@) ==> r == Err::<u32, PyError>(PyError::TypeError),
{
    proof {
        lemma2_to64();
    }
    if digits.len() == 0 {
        return Err(PyError::TypeError);
    }
    let mut acc: u32 = 0;
    let mut i: usize = 0;
    proof {
        assert(digits@.take(0) =~= Seq::<u8>::empty());
    }
    while i < digits.len()
        invariant
            i <= digits@.len(),
            acc == wrap_decimal(digits@.take(i as int)),
            forall|j: int| 0 <= j < i ==> 48 <= #[trigger] digits@[j] <= 57,
        decreases digits@.len() - i,
    {
        let d = digits[i];
        if !(48 <= d && d <= 57) {
            assert(!is_dec_digits(digits@));
            return Err(PyError::TypeError);
        }
        proof {
            assert(digits@.take(i + 1 as int).drop_last() =~= digits@.take(i as int));
            assert(digits@.take(i + 1 as int).last() == digits@[i as int]);
            lemma2_to64();
        }
        acc = (((acc as u64) * 10 + ((d - 48) as u64)) % 0x1_0000_0000u64) as u32;
        i = i + 1;
    }
    proof {
        assert(digits@.take(digits@.len() as int) =~= digits@);
    }
    Ok(acc)
}

/// The signed reading of a wrapped literal, as a machine integer.
pub fn as_signed_i32(v: u32) -> (r: i32)
    ensures
        r as int == to_signed(PY_INT_SIZE, v),
{
    proof {
        lemma2_to64();
    }
    if v >= 0x8000_0000u32 {
        (v as i64 - 0x1_0000_0000i64) as i32
    } else {
        v as i32
    }
}

/// What `range` yields on the given syntactic arguments: the bounds of
/// the iteration, signed. One literal bounds `0..n`; two give `a..b`; a
/// three-argument `range` is not implemented; anything else is not a
/// valid use of `range`.
pub open spec fn spec_range(args: Seq<ArgV>) -> Result<(int, int), PyError> {
    if args.len() == 1 {
        match args[0] {
            ArgV::Positional(ExprV::IntLit(d)) => if is_dec_digits(d) {
                Ok((0int, to_signed(PY_INT_SIZE, wrap_decimal(d))))
            } else {
                Err(PyError::TypeError)
            },
            _ => Err(PyError::InvalidRangeArgs),
        }
    } else if args.len() == 2 {
        match (args[0], args[1]) {
            (ArgV::Positional(ExprV::IntLit(d0)), ArgV::Positional(ExprV::IntLit(d1))) => if
            is_dec_digits(d0) {
                if is_dec_digits(d1) {
                    Ok(
                        (
                            to_signed(PY_INT_SIZE, wrap_decimal(d0)),
                            to_signed(PY_INT_SIZE, wrap_decimal(d1)),
                        ),
                    )
                } else {
                    Err(PyError::TypeError)
                }
            } else {
                Err(PyError::TypeError)
            },
            _ => Err(PyError::InvalidRangeArgs),
        }
    } else if args.len() == 3 {
        match (args[0], args[1], args[2]) {
            (
                ArgV::Positional(ExprV::IntLit(_)),
                ArgV::Positional(ExprV::IntLit(_)),
                ArgV::Positional(ExprV::IntLit(_)),
            ) => Err(PyError::UnsupportedCall),
            _ => Err(PyError::InvalidRangeArgs),
        }
    } else {
        Err(PyError::InvalidRangeArgs)
    }
}

/// Reads the bounds of a `range` call from its syntactic arguments.
pub fn range(args: &Vec<AstArg>) -> (r: Result<(i32, i32), PyError>)
    ensures
        match spec_range(arg_views(args@)) {
            Ok((s, e)) => r matches Ok((a, b)) && a as int == s && b as int == e,
            Err(er) => r == Err::<(i32, i32), PyError>(er),
        },
{
    proof {
        lemma_arg_views(args@);
    }
    if args.len() == 1 {
        match &args[0] {
            AstArg::Positional(AstExpr::IntLit(d)) => match parse_int_literal(d) {
                Ok(v) => Ok((0, as_signed_i32(v))),
                Err(e) => Err(e),
            },
            _ => Err(PyError::InvalidRangeArgs),
        }
    } else if args.len() == 2 {
        let b0 = match &args[0] {
            AstArg::Positional(AstExpr::IntLit(d)) => Some(d),
            _ => None,
        };
        let b1 = match &args[1] {
            AstArg::Positional(AstExpr::IntLit(d)) => Some(d),
            _ => None,
        };
        match (b0, b1) {
            (Some(d0), Some(d1)) => match parse_int_literal(d0) {
                Ok(v0) => match parse_int_literal(d1) {
                    Ok(v1) => Ok((as_signed_i32(v0), as_signed_i32(v1))),
                    Err(e) => Err(e),
                },
                Err(e) => Err(e),
            },
            _ => Err(PyError::InvalidRangeArgs),
        }
    } else if args.len() == 3 {
        let all_int = {
            let c0 = matches!(&args[0], AstArg::Positional(AstExpr::IntLit(_)));
            let c1 = matches!(&args[1], AstArg::Positional(AstExpr::IntLit(_)));
            let c2 = matches!(&args[2], AstArg::Positional(AstExpr::IntLit(_)));
            c0 && c1 && c2
        };
        if all_int {
            Err(PyError::UnsupportedCall)
        } else {
            Err(PyError::InvalidRangeArgs)
        }
    } else {
        Err(PyError::InvalidRangeArgs)
    }
}

} // verus!
