//! Compile-time constant values and the constant arithmetic engine.
//!
//! A `Const` is a tagged literal value: a 64-bit integer, a double carried
//! as its IEEE-754 bit pattern, or a string. The binary and unary
//! operations below fold two constants into one at compile time, with the
//! numeric promotion rules of the target language: integer-only operands
//! stay integral (wrapping on overflow, as the target machine does), any
//! double operand promotes the result to a double, and a folded double
//! that is NaN, infinite, or exactly zero is suppressed — such values are
//! only ever produced by genuine runtime evaluation, never baked into a
//! constant pool.
//!
//! Every operation returns `Result<Option<Const>, CompileError>`:
//! `Ok(Some(k))` is a folded constant, `Ok(None)` means "not foldable,
//! defer to runtime", and `Err(_)` is a hard compile-time error (integer
//! division or remainder by zero).

use vstd::prelude::*;
use crate::compiler::CompileError;
use crate::fbits::f64_add_bits;
use crate::fbits::f64_sub_bits;
use crate::fbits::f64_mul_bits;
use crate::fbits::f64_div_bits;
use crate::fbits::f64_rem_bits;
use crate::fbits::f64_floor_bits;
use crate::fbits::f64_num_eq;
use crate::fbits::f64_trunc_i64;
use crate::fbits::i64_to_f64_bits;
use crate::fbits::f64_is_nan;
use crate::fbits::f64_is_inf;
use crate::fbits::f64_is_zero;
use crate::fbits::f64_neg_bits;
use crate::fbits::float_add;
use crate::fbits::float_sub;
use crate::fbits::float_mul;
use crate::fbits::float_div;
use crate::fbits::float_rem;
use crate::fbits::float_floor;
use crate::fbits::float_num_eq;
use crate::fbits::float_trunc_i64;
use crate::fbits::int_to_float;
use crate::fbits::is_nan_bits;
use crate::fbits::is_inf_bits;
use crate::fbits::is_zero_bits;

verus! {

/// A compile-time constant. A `Float` holds the IEEE-754 binary64 bit
/// pattern of its value, so that two floats are the same constant exactly
/// when they agree in every bit (+0.0 and -0.0 are distinct constants).
#[derive(Debug, Clone)]
pub enum Const {
    Int(i64),
    Float(u64),
    Str(String),
}

/// The mathematical value of a `Const`: strings abstract to their
/// character sequences. Constant-pool deduplication and all contracts
/// compare constants at this level.
pub enum ConstV {
    Int(i64),
    Float(u64),
    Str(Seq<char>),
}

/// The value a `Const` denotes.
pub open spec fn cview(c: Const) -> ConstV {
    match c {
        Const::Int(i) => ConstV::Int(i),
        Const::Float(f) => ConstV::Float(f),
        Const::Str(s) => ConstV::Str(s@),
    }
}

/// The value an optional `Const` denotes.
pub open spec fn oview(v: Option<Const>) -> Option<ConstV> {
    match v {
        Some(c) => Some(cview(c)),
        None => None,
    }
}

/// The value a fold outcome denotes: errors abstract to their messages.
pub open spec fn rview(r: Result<Option<Const>, CompileError>) -> Result<
    Option<ConstV>,
    Seq<char>,
> {
    match r {
        Ok(v) => Ok(oview(v)),
        Err(e) => Err(e@),
    }
}

impl PartialEq for Const {
    /// Structural equality: floats compare by bit pattern.
    fn eq(&self, other: &Const) -> (r: bool) {
        match (self, other) {
            (Const::Int(a), Const::Int(b)) => *a == *b,
            (Const::Float(a), Const::Float(b)) => *a == *b,
            (Const::Str(a), Const::Str(b)) => *a == *b,
            _ => false,
        }
    }
}

impl vstd::std_specs::cmp::PartialEqSpecImpl for Const {
    open spec fn obeys_eq_spec() -> bool {
        true
    }

    open spec fn eq_spec(&self, other: &Const) -> bool {
        cview(*self) == cview(*other)
    }
}

/// A double result that is NaN, infinite, or exactly zero is withdrawn
/// from folding: those values are observed only at runtime.
pub open spec fn suppress(v: Option<ConstV>) -> Option<ConstV> {
    match v {
        Some(ConstV::Float(f)) => if f64_is_nan(f) || f64_is_inf(f) || f64_is_zero(f) {
            None
        } else {
            v
        },
        _ => v,
    }
}

/// An operand read as an integer: integers directly, doubles only when
/// exactly integral (truncated), strings never.
pub open spec fn spec_to_int(c: ConstV) -> Option<i64> {
    match c {
        ConstV::Int(i) => Some(i),
        ConstV::Float(f) => spec_float_to_int(f),
        ConstV::Str(_) => None,
    }
}

/// A double read back as an integer: defined exactly when the value
/// equals its own floor, and then truncated toward zero.
pub open spec fn spec_float_to_int(f: u64) -> Option<i64> {
    if f64_num_eq(f64_floor_bits(f), f) {
        Some(f64_trunc_i64(f))
    } else {
        None
    }
}

/// Addition under numeric promotion.
pub open spec fn spec_add(a: ConstV, b: ConstV) -> Option<ConstV> {
    suppress(
        match (a, b) {
            (ConstV::Int(x), ConstV::Int(y)) => Some(ConstV::Int(x.wrapping_add(y))),
            (ConstV::Int(x), ConstV::Float(y)) => Some(
                ConstV::Float(f64_add_bits(i64_to_f64_bits(x), y)),
            ),
            (ConstV::Float(x), ConstV::Int(y)) => Some(
                ConstV::Float(f64_add_bits(x, i64_to_f64_bits(y))),
            ),
            (ConstV::Float(x), ConstV::Float(y)) => Some(ConstV::Float(f64_add_bits(x, y))),
            _ => None,
        },
    )
}

/// Subtraction under numeric promotion.
pub open spec fn spec_sub(a: ConstV, b: ConstV) -> Option<ConstV> {
    suppress(
        match (a, b) {
            (ConstV::Int(x), ConstV::Int(y)) => Some(ConstV::Int(x.wrapping_sub(y))),
            (ConstV::Int(x), ConstV::Float(y)) => Some(
                ConstV::Float(f64_sub_bits(i64_to_f64_bits(x), y)),
            ),
            (ConstV::Float(x), ConstV::Int(y)) => Some(
                ConstV::Float(f64_sub_bits(x, i64_to_f64_bits(y))),
            ),
            (ConstV::Float(x), ConstV::Float(y)) => Some(ConstV::Float(f64_sub_bits(x, y))),
            _ => None,
        },
    )
}

/// Multiplication under numeric promotion.
pub open spec fn spec_mul(a: ConstV, b: ConstV) -> Option<ConstV> {
    suppress(
        match (a, b) {
            (ConstV::Int(x), ConstV::Int(y)) => Some(ConstV::Int(x.wrapping_mul(y))),
            (ConstV::Int(x), ConstV::Float(y)) => Some(
                ConstV::Float(f64_mul_bits(i64_to_f64_bits(x), y)),
            ),
            (ConstV::Float(x), ConstV::Int(y)) => Some(
                ConstV::Float(f64_mul_bits(x, i64_to_f64_bits(y))),
            ),
            (ConstV::Float(x), ConstV::Float(y)) => Some(ConstV::Float(f64_mul_bits(x, y))),
            _ => None,
        },
    )
}

/// Ordinary division: the result is always a double, whatever the
/// operands, and a NaN, infinite or zero quotient is not folded.
pub open spec fn spec_div(a: ConstV, b: ConstV) -> Option<ConstV> {
    suppress(
        match (a, b) {
            (ConstV::Int(x), ConstV::Int(y)) => Some(
                ConstV::Float(f64_div_bits(i64_to_f64_bits(x), i64_to_f64_bits(y))),
            ),
            (ConstV::Int(x), ConstV::Float(y)) => Some(
                ConstV::Float(f64_div_bits(i64_to_f64_bits(x), y)),
            ),
            (ConstV::Float(x), ConstV::Int(y)) => Some(
                ConstV::Float(f64_div_bits(x, i64_to_f64_bits(y))),
            ),
            (ConstV::Float(x), ConstV::Float(y)) => Some(ConstV::Float(f64_div_bits(x, y))),
            _ => None,
        },
    )
}

/// Floor division: defined only for two integers; truncating, with the
/// one wrapping case `i64::MIN / -1`. Division by integer zero is a hard
/// compile-time error; any double operand defers to runtime.
pub open spec fn spec_idiv(a: ConstV, b: ConstV) -> Result<Option<ConstV>, Seq<char>> {
    match (a, b) {
        (ConstV::Int(x), ConstV::Int(y)) => if y == 0 {
            Err("divide by zero"@)
        } else {
            Ok(
                Some(
                    ConstV::Int(
                        match x.checked_div(y) {
                            Some(v) => v,
                            None => i64::MIN,
                        },
                    ),
                ),
            )
        },
        _ => Ok(None),
    }
}

/// Remainder: two integers give the truncating remainder (remainder by
/// integer zero is a hard compile-time error; `i64::MIN % -1` wraps to
/// zero); any double operand gives the `fmod` of the promoted doubles,
/// under the zero/NaN/infinity suppression.
pub open spec fn spec_rem(a: ConstV, b: ConstV) -> Result<Option<ConstV>, Seq<char>> {
    match (a, b) {
        (ConstV::Int(x), ConstV::Int(y)) => if y == 0 {
            Err("divide by zero"@)
        } else {
            Ok(
                Some(
                    ConstV::Int(
                        match x.checked_rem(y) {
                            Some(v) => v,
                            None => 0i64,
                        },
                    ),
                ),
            )
        },
        (ConstV::Int(x), ConstV::Float(y)) => Ok(
            suppress(Some(ConstV::Float(f64_rem_bits(i64_to_f64_bits(x), y)))),
        ),
        (ConstV::Float(x), ConstV::Int(y)) => Ok(
            suppress(Some(ConstV::Float(f64_rem_bits(x, i64_to_f64_bits(y))))),
        ),
        (ConstV::Float(x), ConstV::Float(y)) => Ok(
            suppress(Some(ConstV::Float(f64_rem_bits(x, y)))),
        ),
        _ => Ok(None),
    }
}

/// Bitwise and: both operands must be exactly integral.
pub open spec fn spec_band(a: ConstV, b: ConstV) -> Option<ConstV> {
    match (spec_to_int(a), spec_to_int(b)) {
        (Some(x), Some(y)) => Some(ConstV::Int(x & y)),
        _ => None,
    }
}

/// Bitwise or: both operands must be exactly integral.
pub open spec fn spec_bor(a: ConstV, b: ConstV) -> Option<ConstV> {
    match (spec_to_int(a), spec_to_int(b)) {
        (Some(x), Some(y)) => Some(ConstV::Int(x | y)),
        _ => None,
    }
}

/// Bitwise exclusive or: both operands must be exactly integral.
pub open spec fn spec_bxor(a: ConstV, b: ConstV) -> Option<ConstV> {
    match (spec_to_int(a), spec_to_int(b)) {
        (Some(x), Some(y)) => Some(ConstV::Int(x ^ y)),
        _ => None,
    }
}

/// Left shift: both operands must be exactly integral; the shift amount
/// is taken modulo the word width, as the target machine does.
pub open spec fn spec_shl(a: ConstV, b: ConstV) -> Option<ConstV> {
    match (spec_to_int(a), spec_to_int(b)) {
        (Some(x), Some(y)) => Some(ConstV::Int(x.wrapping_shl((y & 63) as u32))),
        _ => None,
    }
}

/// Arithmetic right shift: both operands must be exactly integral; the
/// shift amount is taken modulo the word width.
pub open spec fn spec_shr(a: ConstV, b: ConstV) -> Option<ConstV> {
    match (spec_to_int(a), spec_to_int(b)) {
        (Some(x), Some(y)) => Some(ConstV::Int(x.wrapping_shr((y & 63) as u32))),
        _ => None,
    }
}

/// Unary minus: integers wrap; a double has its sign bit flipped, and a
/// zero result (minus of a signed zero) is suppressed; strings defer.
pub open spec fn spec_minus(c: ConstV) -> Option<ConstV> {
    suppress(
        match c {
            ConstV::Int(i) => Some(ConstV::Int((0i64).wrapping_sub(i))),
            ConstV::Float(f) => Some(ConstV::Float(f64_neg_bits(f))),
            ConstV::Str(_) => None,
        },
    )
}

/// Bitwise not: integers only; anything else defers.
pub open spec fn spec_bnot(c: ConstV) -> Option<ConstV> {
    match c {
        ConstV::Int(i) => Some(ConstV::Int(!i)),
        _ => None,
    }
}

/// A double read back as an integer, executable form: `Some` exactly when
/// the value equals its own floor (so +-infinity converts, saturating,
/// while NaN and fractional values do not).
pub fn float_to_int(f: u64) -> (r: Option<i64>)
    ensures
        r == spec_float_to_int(f),
{
    let fl = float_floor(f);
    if float_num_eq(fl, f) {
        Some(float_trunc_i64(f))
    } else {
        None
    }
}

/// Withdraws from folding a double result that could not sit in the
/// constant pool: NaN, infinite, or exactly zero. Anything else, errors
/// included, passes through unchanged.
pub fn ignore_unhashable_float(input: Result<Option<Const>, CompileError>) -> (r: Result<
    Option<Const>,
    CompileError,
>)
    ensures
        input matches Ok(v) ==> rview(r) == Result::<Option<ConstV>, Seq<char>>::Ok(
            suppress(oview(v)),
        ),
        input matches Err(e) ==> rview(r) == Result::<Option<ConstV>, Seq<char>>::Err(e@),
{
    match input {
        Ok(Some(Const::Float(f))) => {
            if is_nan_bits(f) || is_inf_bits(f) || is_zero_bits(f) {
                Ok(None)
            } else {
                Ok(Some(Const::Float(f)))
            }
        },
        other => other,
    }
}

impl Const {
    /// The operand read as an integer, executable form.
    fn to_int(self) -> (r: Option<i64>)
        ensures
            r == spec_to_int(cview(self)),
    {
        match self {
            Const::Int(i) => Some(i),
            Const::Float(f) => float_to_int(f),
            Const::Str(_) => None,
        }
    }

    /// Folds `self + other` under numeric promotion.
    pub fn add(self, other: Const) -> (r: Result<Option<Const>, CompileError>)
        ensures
            rview(r) == Result::<Option<ConstV>, Seq<char>>::Ok(
                spec_add(cview(self), cview(other)),
            ),
    {
        let result = match (self, other) {
            (Const::Int(a), Const::Int(b)) => Ok(Some(Const::Int(a.wrapping_add(b)))),
            (Const::Int(a), Const::Float(b)) => Ok(
                Some(Const::Float(float_add(int_to_float(a), b))),
            ),
            (Const::Float(a), Const::Int(b)) => Ok(
                Some(Const::Float(float_add(a, int_to_float(b)))),
            ),
            (Const::Float(a), Const::Float(b)) => Ok(Some(Const::Float(float_add(a, b)))),
            _ => Ok(None),
        };
        ignore_unhashable_float(result)
    }

    /// Folds `self - other` under numeric promotion.
    pub fn sub(self, other: Const) -> (r: Result<Option<Const>, CompileError>)
        ensures
            rview(r) == Result::<Option<ConstV>, Seq<char>>::Ok(
                spec_sub(cview(self), cview(other)),
            ),
    {
        let result = match (self, other) {
            (Const::Int(a), Const::Int(b)) => Ok(Some(Const::Int(a.wrapping_sub(b)))),
            (Const::Int(a), Const::Float(b)) => Ok(
                Some(Const::Float(float_sub(int_to_float(a), b))),
            ),
            (Const::Float(a), Const::Int(b)) => Ok(
                Some(Const::Float(float_sub(a, int_to_float(b)))),
            ),
            (Const::Float(a), Const::Float(b)) => Ok(Some(Const::Float(float_sub(a, b)))),
            _ => Ok(None),
        };
        ignore_unhashable_float(result)
    }

    /// Folds `self * other` under numeric promotion.
    pub fn mul(self, other: Const) -> (r: Result<Option<Const>, CompileError>)
        ensures
            rview(r) == Result::<Option<ConstV>, Seq<char>>::Ok(
                spec_mul(cview(self), cview(other)),
            ),
    {
        let result = match (self, other) {
            (Const::Int(a), Const::Int(b)) => Ok(Some(Const::Int(a.wrapping_mul(b)))),
            (Const::Int(a), Const::Float(b)) => Ok(
                Some(Const::Float(float_mul(int_to_float(a), b))),
            ),
            (Const::Float(a), Const::Int(b)) => Ok(
                Some(Const::Float(float_mul(a, int_to_float(b)))),
            ),
            (Const::Float(a), Const::Float(b)) => Ok(Some(Const::Float(float_mul(a, b)))),
            _ => Ok(None),
        };
        ignore_unhashable_float(result)
    }

    /// Folds `self / other`: the quotient is always a double.
    pub fn div(self, other: Const) -> (r: Result<Option<Const>, CompileError>)
        ensures
            rview(r) == Result::<Option<ConstV>, Seq<char>>::Ok(
                spec_div(cview(self), cview(other)),
            ),
    {
        let result = match (self, other) {
            (Const::Int(a), Const::Int(b)) => Ok(
                Some(Const::Float(float_div(int_to_float(a), int_to_float(b)))),
            ),
            (Const::Int(a), Const::Float(b)) => Ok(
                Some(Const::Float(float_div(int_to_float(a), b))),
            ),
            (Const::Float(a), Const::Int(b)) => Ok(
                Some(Const::Float(float_div(a, int_to_float(b)))),
            ),
            (Const::Float(a), Const::Float(b)) => Ok(Some(Const::Float(float_div(a, b)))),
            _ => Ok(None),
        };
        ignore_unhashable_float(result)
    }

    /// Folds `self // other` (floor division): integers only; division by
    /// integer zero is a hard compile-time error.
    pub fn idiv(self, other: Const) -> (r: Result<Option<Const>, CompileError>)
        ensures
            rview(r) == spec_idiv(cview(self), cview(other)),
    {
        match (self, other) {
            (Const::Int(a), Const::Int(b)) => {
                if b == 0 {
                    Err(CompileError::new("divide by zero"))
                } else {
                    match a.checked_div(b) {
                        Some(v) => Ok(Some(Const::Int(v))),
                        None => Ok(Some(Const::Int(i64::MIN))),
                    }
                }
            },
            _ => Ok(None),
        }
    }

    /// Folds `self % other`: remainder by integer zero is a hard
    /// compile-time error; doubles take the `fmod` of the promoted values.
    pub fn rem(self, other: Const) -> (r: Result<Option<Const>, CompileError>)
        ensures
            rview(r) == spec_rem(cview(self), cview(other)),
    {
        match (self, other) {
            (Const::Int(a), Const::Int(b)) => {
                if b == 0 {
                    Err(CompileError::new("divide by zero"))
                } else {
                    match a.checked_rem(b) {
                        Some(v) => Ok(Some(Const::Int(v))),
                        None => Ok(Some(Const::Int(0))),
                    }
                }
            },
            (Const::Int(a), Const::Float(b)) => ignore_unhashable_float(
                Ok(Some(Const::Float(float_rem(int_to_float(a), b)))),
            ),
            (Const::Float(a), Const::Int(b)) => ignore_unhashable_float(
                Ok(Some(Const::Float(float_rem(a, int_to_float(b))))),
            ),
            (Const::Float(a), Const::Float(b)) => ignore_unhashable_float(
                Ok(Some(Const::Float(float_rem(a, b)))),
            ),
            _ => Ok(None),
        }
    }

    /// Exponentiation never folds. The target language computes it with
    /// the platform's `pow`, whose rounding is not specified and differs
    /// between hosts; folding it would bake one host's answer into the
    /// constant pool, so the operation is always deferred to runtime.
    pub fn pow(self, other: Const) -> (r: Result<Option<Const>, CompileError>)
        ensures
            rview(r) == Result::<Option<ConstV>, Seq<char>>::Ok(Option::<ConstV>::None),
    {
        let _ = self;
        let _ = other;
        Ok(None)
    }

    /// Folds `self & other`: both operands must be exactly integral.
    pub fn band(self, other: Const) -> (r: Result<Option<Const>, CompileError>)
        ensures
            rview(r) == Result::<Option<ConstV>, Seq<char>>::Ok(
                spec_band(cview(self), cview(other)),
            ),
    {
        match (self.to_int(), other.to_int()) {
            (Some(x), Some(y)) => Ok(Some(Const::Int(x & y))),
            _ => Ok(None),
        }
    }

    /// Folds `self | other`: both operands must be exactly integral.
    pub fn bor(self, other: Const) -> (r: Result<Option<Const>, CompileError>)
        ensures
            rview(r) == Result::<Option<ConstV>, Seq<char>>::Ok(
                spec_bor(cview(self), cview(other)),
            ),
    {
        match (self.to_int(), other.to_int()) {
            (Some(x), Some(y)) => Ok(Some(Const::Int(x | y))),
            _ => Ok(None),
        }
    }

    /// Folds `self ^ other`: both operands must be exactly integral.
    pub fn bxor(self, other: Const) -> (r: Result<Option<Const>, CompileError>)
        ensures
            rview(r) == Result::<Option<ConstV>, Seq<char>>::Ok(
                spec_bxor(cview(self), cview(other)),
            ),
    {
        match (self.to_int(), other.to_int()) {
            (Some(x), Some(y)) => Ok(Some(Const::Int(x ^ y))),
            _ => Ok(None),
        }
    }

    /// Folds `self << other`: both operands must be exactly integral.
    pub fn shl(self, other: Const) -> (r: Result<Option<Const>, CompileError>)
        ensures
            rview(r) == Result::<Option<ConstV>, Seq<char>>::Ok(
                spec_shl(cview(self), cview(other)),
            ),
    {
        match (self.to_int(), other.to_int()) {
            (Some(x), Some(y)) => Ok(Some(Const::Int(x.wrapping_shl((y & 63) as u32)))),
            _ => Ok(None),
        }
    }

    /// Folds `self >> other` (arithmetic): both operands must be exactly
    /// integral.
    pub fn shr(self, other: Const) -> (r: Result<Option<Const>, CompileError>)
        ensures
            rview(r) == Result::<Option<ConstV>, Seq<char>>::Ok(
                spec_shr(cview(self), cview(other)),
            ),
    {
        match (self.to_int(), other.to_int()) {
            (Some(x), Some(y)) => Ok(Some(Const::Int(x.wrapping_shr((y & 63) as u32)))),
            _ => Ok(None),
        }
    }

    /// Folds unary minus: integers wrap, doubles flip their sign bit (a
    /// resulting zero is suppressed), strings defer.
    pub fn minus(&self) -> (r: Result<Option<Const>, CompileError>)
        ensures
            rview(r) == Result::<Option<ConstV>, Seq<char>>::Ok(spec_minus(cview(*self))),
    {
        let result = match self {
            Const::Int(i) => Ok(Some(Const::Int((0i64).wrapping_sub(*i)))),
            Const::Float(f) => Ok(Some(Const::Float(*f ^ 0x8000_0000_0000_0000u64))),
            Const::Str(_) => {
                return Ok(None);
            },
        };
        ignore_unhashable_float(result)
    }

    /// Folds bitwise not: integers only; anything else defers.
    pub fn bnot(&self) -> (r: Result<Option<Const>, CompileError>)
        ensures
            rview(r) == Result::<Option<ConstV>, Seq<char>>::Ok(spec_bnot(cview(*self))),
    {
        match self {
            Const::Int(i) => Ok(Some(Const::Int(!*i))),
            _ => Ok(None),
        }
    }
}

} // verus!
