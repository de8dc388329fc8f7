use vstd::prelude::*;
use crate::enums::MathExpr;
use crate::errors::{BuildError, SpecBuildError};
use crate::helpers::{chars_to_string, push_dec_digits_u128, spec_dec_digits, spec_digit};

verus! {

/// An exact rational number with a positive denominator.
#[derive(Debug, PartialEq)]
pub struct Rational {
    /// The numerator, carrying the sign.
    pub num: i128,
    /// The denominator, always positive.
    pub den: i128,
}

/// Whether a value fits a 128-bit signed integer.
pub open spec fn in_i128(x: int) -> bool {
    i128::MIN <= x <= i128::MAX
}

/// Evaluate a math expression to an exact rational, a post-order fold.
/// Division by zero is an error; so is an intermediate value beyond what a
/// 128-bit numerator or denominator can hold.
pub open spec fn spec_eval(e: MathExpr) -> Result<(int, int), SpecBuildError>
    decreases e,
{
    match e {
        MathExpr::Num(n) => Ok((n as int, 1)),
        MathExpr::Neg(a) => match spec_eval(*a) {
            Err(err) => Err(err),
            Ok((p, q)) => if !in_i128(-p) {
                Err(SpecBuildError::MathOverflow)
            } else {
                Ok((-p, q))
            },
        },
        MathExpr::Add(a, b) => match (spec_eval(*a), spec_eval(*b)) {
            (Err(err), _) => Err(err),
            (Ok(_), Err(err)) => Err(err),
            (Ok((p1, q1)), Ok((p2, q2))) => if !in_i128(p1 * q2) {
                Err(SpecBuildError::MathOverflow)
            } else if !in_i128(p2 * q1) {
                Err(SpecBuildError::MathOverflow)
            } else if !in_i128(p1 * q2 + p2 * q1) {
                Err(SpecBuildError::MathOverflow)
            } else if !in_i128(q1 * q2) {
                Err(SpecBuildError::MathOverflow)
            } else {
                Ok((p1 * q2 + p2 * q1, q1 * q2))
            },
        },
        MathExpr::Sub(a, b) => match (spec_eval(*a), spec_eval(*b)) {
            (Err(err), _) => Err(err),
            (Ok(_), Err(err)) => Err(err),
            (Ok((p1, q1)), Ok((p2, q2))) => if !in_i128(p1 * q2) {
                Err(SpecBuildError::MathOverflow)
            } else if !in_i128(p2 * q1) {
                Err(SpecBuildError::MathOverflow)
            } else if !in_i128(p1 * q2 - p2 * q1) {
                Err(SpecBuildError::MathOverflow)
            } else if !in_i128(q1 * q2) {
                Err(SpecBuildError::MathOverflow)
            } else {
                Ok((p1 * q2 - p2 * q1, q1 * q2))
            },
        },
        MathExpr::Mul(a, b) => match (spec_eval(*a), spec_eval(*b)) {
            (Err(err), _) => Err(err),
            (Ok(_), Err(err)) => Err(err),
            (Ok((p1, q1)), Ok((p2, q2))) => if !in_i128(p1 * p2) {
                Err(SpecBuildError::MathOverflow)
            } else if !in_i128(q1 * q2) {
                Err(SpecBuildError::MathOverflow)
            } else {
                Ok((p1 * p2, q1 * q2))
            },
        },
        MathExpr::Div(a, b) => match (spec_eval(*a), spec_eval(*b)) {
            (Err(err), _) => Err(err),
            (Ok(_), Err(err)) => Err(err),
            (Ok((p1, q1)), Ok((p2, q2))) => if p2 == 0 {
                Err(SpecBuildError::DivisionByZero)
            } else if !in_i128(p1 * q2) {
                Err(SpecBuildError::MathOverflow)
            } else if !in_i128(q1 * p2) {
                Err(SpecBuildError::MathOverflow)
            } else if q1 * p2 < 0 {
                if !in_i128(-(p1 * q2)) || !in_i128(-(q1 * p2)) {
                    Err(SpecBuildError::MathOverflow)
                } else {
                    Ok((-(p1 * q2), -(q1 * p2)))
                }
            } else {
                Ok((p1 * q2, q1 * p2))
            },
        },
    }
}

/// A successful evaluation yields a positive denominator.
pub proof fn lemma_eval_den_positive(e: MathExpr)
    ensures
        spec_eval(e) matches Ok((p, q)) ==> q > 0,
    decreases e,
{
    match e {
        MathExpr::Num(n) => {},
        MathExpr::Neg(a) => {
            lemma_eval_den_positive(*a);
        },
        MathExpr::Add(a, b) => {
            lemma_eval_den_positive(*a);
            lemma_eval_den_positive(*b);
            lemma_mul_pos();
        },
        MathExpr::Sub(a, b) => {
            lemma_eval_den_positive(*a);
            lemma_eval_den_positive(*b);
            lemma_mul_pos();
        },
        MathExpr::Mul(a, b) => {
            lemma_eval_den_positive(*a);
            lemma_eval_den_positive(*b);
            lemma_mul_pos();
        },
        MathExpr::Div(a, b) => {
            lemma_eval_den_positive(*a);
            lemma_eval_den_positive(*b);
            lemma_mul_nonzero();
        },
    }
}

/// The product of two positive numbers is positive.
proof fn lemma_mul_pos()
    ensures
        forall|x: int, y: int| x > 0 && y > 0 ==> #[trigger] (x * y) > 0,
{
    assert forall|x: int, y: int| x > 0 && y > 0 implies #[trigger] (x * y) > 0 by {
        vstd::arithmetic::mul::lemma_mul_strictly_positive(x, y);
    }
}

/// The product of a positive and a non-zero number is non-zero.
proof fn lemma_mul_nonzero()
    ensures
        forall|x: int, y: int| x > 0 && y != 0 ==> #[trigger] (x * y) != 0,
{
    assert forall|x: int, y: int| x > 0 && y != 0 implies #[trigger] (x * y) != 0 by {
        vstd::arithmetic::mul::lemma_mul_nonzero(x, y);
    }
}

/// Evaluate a math expression to an exact rational.
pub fn eval(expression: &MathExpr) -> (r: Result<Rational, BuildError>)
    ensures
        r matches Ok(rat) ==> spec_eval(*expression) == Ok::<(int, int), SpecBuildError>(
            (rat.num as int, rat.den as int),
        ) && rat.den > 0,
        r matches Err(e) ==> spec_eval(*expression) == Err::<(int, int), SpecBuildError>(e@),
    decreases *expression,
{
    proof {
        lemma_eval_den_positive(*expression);
    }
    match expression {
        MathExpr::Num(x) => Ok(Rational { num: *x as i128, den: 1 }),
        MathExpr::Neg(a) => {
            let ra = match eval(a) {
                Ok(r) => r,
                Err(e) => {
                    return Err(e);
                },
            };
            let zero: i128 = 0;
            match zero.checked_sub(ra.num) {
                Some(n) => Ok(Rational { num: n, den: ra.den }),
                None => Err(BuildError::MathOverflow),
            }
        },
        MathExpr::Add(a, b) => {
            let ra = match eval(a) {
                Ok(r) => r,
                Err(e) => {
                    return Err(e);
                },
            };
            let rb = match eval(b) {
                Ok(r) => r,
                Err(e) => {
                    return Err(e);
                },
            };
            let x = match ra.num.checked_mul(rb.den) {
                Some(v) => v,
                None => {
                    return Err(BuildError::MathOverflow);
                },
            };
            let y = match rb.num.checked_mul(ra.den) {
                Some(v) => v,
                None => {
                    return Err(BuildError::MathOverflow);
                },
            };
            let num = match x.checked_add(y) {
                Some(v) => v,
                None => {
                    return Err(BuildError::MathOverflow);
                },
            };
            let den = match ra.den.checked_mul(rb.den) {
                Some(v) => v,
                None => {
                    return Err(BuildError::MathOverflow);
                },
            };
            Ok(Rational { num, den })
        },
        MathExpr::Sub(a, b) => {
            let ra = match eval(a) {
                Ok(r) => r,
                Err(e) => {
                    return Err(e);
                },
            };
            let rb = match eval(b) {
                Ok(r) => r,
                Err(e) => {
                    return Err(e);
                },
            };
            let x = match ra.num.checked_mul(rb.den) {
                Some(v) => v,
                None => {
                    return Err(BuildError::MathOverflow);
                },
            };
            let y = match rb.num.checked_mul(ra.den) {
                Some(v) => v,
                None => {
                    return Err(BuildError::MathOverflow);
                },
            };
            let num = match x.checked_sub(y) {
                Some(v) => v,
                None => {
                    return Err(BuildError::MathOverflow);
                },
            };
            let den = match ra.den.checked_mul(rb.den) {
                Some(v) => v,
                None => {
                    return Err(BuildError::MathOverflow);
                },
            };
            Ok(Rational { num, den })
        },
        MathExpr::Mul(a, b) => {
            let ra = match eval(a) {
                Ok(r) => r,
                Err(e) => {
                    return Err(e);
                },
            };
            let rb = match eval(b) {
                Ok(r) => r,
                Err(e) => {
                    return Err(e);
                },
            };
            let num = match ra.num.checked_mul(rb.num) {
                Some(v) => v,
                None => {
                    return Err(BuildError::MathOverflow);
                },
            };
            let den = match ra.den.checked_mul(rb.den) {
                Some(v) => v,
                None => {
                    return Err(BuildError::MathOverflow);
                },
            };
            Ok(Rational { num, den })
        },
        MathExpr::Div(a, b) => {
            let ra = match eval(a) {
                Ok(r) => r,
                Err(e) => {
                    return Err(e);
                },
            };
            let rb = match eval(b) {
                Ok(r) => r,
                Err(e) => {
                    return Err(e);
                },
            };
            if rb.num == 0 {
                return Err(BuildError::DivisionByZero);
            }
            let num = match ra.num.checked_mul(rb.den) {
                Some(v) => v,
                None => {
                    return Err(BuildError::MathOverflow);
                },
            };
            let den = match ra.den.checked_mul(rb.num) {
                Some(v) => v,
                None => {
                    return Err(BuildError::MathOverflow);
                },
            };
            if den < 0 {
                let zero: i128 = 0;
                let num2 = match zero.checked_sub(num) {
                    Some(v) => v,
                    None => {
                        return Err(BuildError::MathOverflow);
                    },
                };
                let den2 = match zero.checked_sub(den) {
                    Some(v) => v,
                    None => {
                        return Err(BuildError::MathOverflow);
                    },
                };
                Ok(Rational { num: num2, den: den2 })
            } else {
                Ok(Rational { num, den })
            }
        },
    }
}

/// The fractional digits of `rem / den` by long division: one digit per
/// step, stopping at an exact remainder or after `fuel` digits.
pub open spec fn spec_frac_digits(rem: int, den: int, fuel: nat) -> Seq<char>
    decreases fuel,
{
    if fuel == 0 || rem <= 0 || den <= 0 {
        Seq::empty()
    } else {
        let r10 = rem * 10;
        if r10 > u128::MAX {
            Seq::empty()
        } else {
            seq![spec_digit(r10 / den)] + spec_frac_digits(r10 % den, den, (fuel - 1) as nat)
        }
    }
}

/// The decimal rendering of a rational with a positive denominator: an
/// optional sign, the integer part, and, unless the remainder is zero, a
/// point and up to sixteen fractional digits by long division.
pub open spec fn spec_render_rational(num: int, den: int) -> Seq<char> {
    let d = if den <= 0 {
        1
    } else {
        den
    };
    let m = if num < 0 {
        -num
    } else {
        num
    };
    let sign: Seq<char> = if num < 0 {
        seq!['-']
    } else {
        Seq::empty()
    };
    let whole = sign + spec_dec_digits(m / d);
    if m % d == 0 {
        whole
    } else {
        whole + seq!['.'] + spec_frac_digits(m % d, d, 16)
    }
}

/// Render a rational as its decimal string.
#[verifier::loop_isolation(false)]
pub fn render_rational(rat: &Rational) -> (r: String)
    requires
        rat.den > 0,
    ensures
        r@ == spec_render_rational(rat.num as int, rat.den as int),
{
    let den: u128 = rat.den as u128;
    let m: u128 = if rat.num < 0 {
        ((-(rat.num + 1)) as u128) + 1
    } else {
        rat.num as u128
    };
    let mut out: Vec<char> = Vec::new();
    if rat.num < 0 {
        out.push('-');
        proof {
            assert(out@ =~= seq!['-']);
        }
    } else {
        proof {
            assert(out@ =~= Seq::<char>::empty());
        }
    }
    proof {
        assert(m as int == (if rat.num < 0 {
            -(rat.num as int)
        } else {
            rat.num as int
        }));
    }
    let ip = m / den;
    let mut rem = m % den;
    push_dec_digits_u128(ip, &mut out);
    let ghost whole = out@;
    if rem == 0 {
        let r = chars_to_string(&out);
        proof {
            assert(r@ =~= spec_render_rational(rat.num as int, rat.den as int));
        }
        return r;
    }
    out.push('.');
    let mut k: usize = 0;
    let ghost rem0 = rem as int;
    let ghost mut done = Seq::<char>::empty();
    proof {
        assert(out@ =~= whole + seq!['.'] + done);
        assert(spec_frac_digits(rem0, den as int, 16) =~= done + spec_frac_digits(
            rem as int,
            den as int,
            16nat,
        ));
    }
    while k < 16 && rem != 0
        invariant
            0 <= k <= 16,
            rem < den,
            out@ == whole + seq!['.'] + done,
            spec_frac_digits(rem0, den as int, 16) == done + spec_frac_digits(
                rem as int,
                den as int,
                (16 - k) as nat,
            ),
        decreases 16 - k,
    {
        let ghost tail = spec_frac_digits(rem as int, den as int, (16 - k) as nat);
        if rem > u128::MAX / 10 {
            proof {
                assert(rem as int * 10 > u128::MAX) by {
                    assert(rem >= u128::MAX / 10 + 1);
                    assert((u128::MAX / 10 + 1) as int * 10 > u128::MAX);
                }
                assert(tail =~= Seq::<char>::empty());
                assert(spec_frac_digits(rem0, den as int, 16) =~= done);
            }
            let r = chars_to_string(&out);
            proof {
                assert(r@ =~= spec_render_rational(rat.num as int, rat.den as int));
            }
            return r;
        }
        let r10 = rem * 10;
        let digit = r10 / den;
        proof {
            assert(r10 < den * 10) by {
                assert(rem <= den - 1);
                assert((den - 1) as int * 10 < den as int * 10) by {
                    vstd::arithmetic::mul::lemma_mul_strict_inequality(
                        (den - 1) as int,
                        den as int,
                        10,
                    );
                }
                assert(rem as int * 10 <= (den - 1) as int * 10) by {
                    vstd::arithmetic::mul::lemma_mul_inequality(
                        rem as int,
                        (den - 1) as int,
                        10,
                    );
                }
            }
            assert(digit < 10) by {
                vstd::arithmetic::div_mod::lemma_fundamental_div_mod(r10 as int, den as int);
                if digit >= 10 {
                    assert(den as int * (r10 as int / den as int) >= den as int * 10) by {
                        vstd::arithmetic::mul::lemma_mul_inequality(
                            10,
                            r10 as int / den as int,
                            den as int,
                        );
                        vstd::arithmetic::mul::lemma_mul_is_commutative(
                            den as int,
                            r10 as int / den as int,
                        );
                        vstd::arithmetic::mul::lemma_mul_is_commutative(10, den as int);
                    }
                }
            }
            assert(tail == seq![spec_digit(r10 as int / den as int)] + spec_frac_digits(
                r10 as int % den as int,
                den as int,
                (16 - k - 1) as nat,
            ));
        }
        let ghost out_pre = out@;
        out.push(crate::helpers::digit_char(digit as u64));
        rem = r10 % den;
        k = k + 1;
        proof {
            done = done + seq![spec_digit(r10 as int / den as int)];
            assert(out@ =~= whole + seq!['.'] + done);
            assert(spec_frac_digits(rem0, den as int, 16) =~= done + spec_frac_digits(
                rem as int,
                den as int,
                (16 - k) as nat,
            ));
        }
    }
    proof {
        assert(spec_frac_digits(rem as int, den as int, (16 - k) as nat) =~= Seq::<char>::empty());
        assert(spec_frac_digits(rem0, den as int, 16) =~= done);
    }
    let r = chars_to_string(&out);
    proof {
        assert(r@ =~= spec_render_rational(rat.num as int, rat.den as int));
    }
    r
}

} // verus!
