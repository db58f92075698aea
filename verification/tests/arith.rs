// The constant arithmetic engine: numeric promotion, hard errors, and
// the suppression of NaN/infinite/zero doubles.

use luac_core::consts::Const;
use luac_core::consts::float_to_int;

fn folded(r: Result<Option<Const>, luac_core::compiler::CompileError>) -> Const {
    match r {
        Ok(Some(k)) => k,
        Ok(None) => panic!("expected a folded constant, got not-foldable"),
        Err(e) => panic!("expected a folded constant, got error: {}", e.message()),
    }
}

fn not_foldable(r: Result<Option<Const>, luac_core::compiler::CompileError>) {
    match r {
        Ok(None) => {}
        Ok(Some(_)) => panic!("expected not-foldable, got a folded constant"),
        Err(e) => panic!("expected not-foldable, got error: {}", e.message()),
    }
}

#[test]
fn int_plus_int_stays_int() {
    let r = Const::Int(2).add(Const::Int(3));
    assert_eq!(folded(r), Const::Int(5));
}

#[test]
fn int_plus_float_promotes() {
    let r = Const::Int(2).add(Const::Float(3.0f64.to_bits()));
    assert_eq!(folded(r), Const::Float(5.0f64.to_bits()));
}

#[test]
fn float_div_float() {
    let r = Const::Float(6.0f64.to_bits()).div(Const::Float(3.0f64.to_bits()));
    assert_eq!(folded(r), Const::Float(2.0f64.to_bits()));
}

#[test]
fn float_sub_and_mul() {
    let r = Const::Float(2.5f64.to_bits()).sub(Const::Float(0.25f64.to_bits()));
    assert_eq!(folded(r), Const::Float(2.25f64.to_bits()));
    let r = Const::Float(1.5f64.to_bits()).mul(Const::Int(4));
    assert_eq!(folded(r), Const::Float(6.0f64.to_bits()));
}

#[test]
fn float_rem_is_fmod() {
    let r = Const::Float(5.5f64.to_bits()).rem(Const::Float(2.0f64.to_bits()));
    assert_eq!(folded(r), Const::Float((5.5f64 % 2.0f64).to_bits()));
}

#[test]
fn int_idiv_zero_is_hard_error() {
    match Const::Int(1).idiv(Const::Int(0)) {
        Err(e) => assert_eq!(e.message(), "divide by zero"),
        _ => panic!("expected a compile error"),
    }
}

#[test]
fn int_rem_zero_is_hard_error() {
    match Const::Int(1).rem(Const::Int(0)) {
        Err(e) => assert_eq!(e.message(), "divide by zero"),
        _ => panic!("expected a compile error"),
    }
}

#[test]
fn int_idiv_int_is_exact() {
    assert_eq!(folded(Const::Int(7).idiv(Const::Int(2))), Const::Int(3));
    assert_eq!(folded(Const::Int(i64::MIN).idiv(Const::Int(-1))), Const::Int(i64::MIN));
}

#[test]
fn idiv_with_float_defers() {
    not_foldable(Const::Float(7.0f64.to_bits()).idiv(Const::Int(2)));
    not_foldable(Const::Int(7).idiv(Const::Float(2.0f64.to_bits())));
}

#[test]
fn float_div_by_int_zero_does_not_fold_to_inf() {
    not_foldable(Const::Float(1.0f64.to_bits()).div(Const::Int(0)));
}

#[test]
fn nan_and_zero_results_are_suppressed() {
    // 0.0 / 0.0 is NaN: not folded.
    let z = 0.0f64.to_bits();
    not_foldable(Const::Float(z).div(Const::Float(z)));
    // 1.0 - 1.0 is exactly 0.0: not folded.
    not_foldable(Const::Float(1.0f64.to_bits()).sub(Const::Float(1.0f64.to_bits())));
}

#[test]
fn integer_zero_result_folds() {
    assert_eq!(folded(Const::Int(1).sub(Const::Int(1))), Const::Int(0));
}

#[test]
fn int_add_wraps() {
    assert_eq!(folded(Const::Int(i64::MAX).add(Const::Int(1))), Const::Int(i64::MIN));
}

#[test]
fn band_requires_integral_floats() {
    not_foldable(Const::Float(2.5f64.to_bits()).band(Const::Int(1)));
    assert_eq!(folded(Const::Float(2.0f64.to_bits()).band(Const::Int(1))), Const::Int(0));
    assert_eq!(folded(Const::Int(6).band(Const::Int(3))), Const::Int(2));
}

#[test]
fn bor_bxor_shifts() {
    assert_eq!(folded(Const::Int(6).bor(Const::Int(3))), Const::Int(7));
    assert_eq!(folded(Const::Int(6).bxor(Const::Int(3))), Const::Int(5));
    assert_eq!(folded(Const::Int(1).shl(Const::Int(4))), Const::Int(16));
    assert_eq!(folded(Const::Int(-16).shr(Const::Int(2))), Const::Int(-4));
}

#[test]
fn pow_always_defers() {
    not_foldable(Const::Int(2).pow(Const::Int(3)));
    not_foldable(Const::Float(2.0f64.to_bits()).pow(Const::Float(0.5f64.to_bits())));
}

#[test]
fn minus_wraps_ints_and_flips_float_sign() {
    assert_eq!(folded(Const::Int(5).minus()), Const::Int(-5));
    assert_eq!(folded(Const::Int(i64::MIN).minus()), Const::Int(i64::MIN));
    assert_eq!(
        folded(Const::Float(1.5f64.to_bits()).minus()),
        Const::Float((-1.5f64).to_bits())
    );
    // Minus of a zero is a zero: suppressed.
    not_foldable(Const::Float(0.0f64.to_bits()).minus());
    not_foldable(Const::Str(String::from("x")).minus());
}

#[test]
fn bnot_is_integer_only() {
    assert_eq!(folded(Const::Int(0).bnot()), Const::Int(-1));
    not_foldable(Const::Float(1.0f64.to_bits()).bnot());
    not_foldable(Const::Str(String::from("x")).bnot());
}

#[test]
fn float_to_int_reads_integral_doubles() {
    assert_eq!(float_to_int(2.0f64.to_bits()), Some(2));
    assert_eq!(float_to_int((-3.0f64).to_bits()), Some(-3));
    assert_eq!(float_to_int(2.5f64.to_bits()), None);
    assert_eq!(float_to_int(f64::NAN.to_bits()), None);
    // An infinity equals its own floor and saturates on conversion.
    assert_eq!(float_to_int(f64::INFINITY.to_bits()), Some(i64::MAX));
}

#[test]
fn const_equality_is_bitwise_on_floats() {
    assert_eq!(Const::Float(0.0f64.to_bits()), Const::Float(0.0f64.to_bits()));
    assert!(Const::Float(0.0f64.to_bits()) != Const::Float((-0.0f64).to_bits()));
    assert_eq!(Const::Str(String::from("ab")), Const::Str(String::from("ab")));
    assert!(Const::Int(1) != Const::Float(1.0f64.to_bits()));
}
