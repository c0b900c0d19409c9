//! Loan amortization schedules, by equal monthly installments or by fixed
//! principal payments on a reducing balance.
use vstd::prelude::*;
use crate::decimal::{
    Dec, decimal_powu, div_exact, fits_at_scale, lemma_div_exact_units, lemma_fits_smaller_scale, max_nat,
    mul_exact, pow10, decimal_add, decimal_div, decimal_mul, decimal_round_dp, decimal_sub, o_add, o_div, o_mul,
    o_powu, o_round, o_sub,
};

verus! {

/// How the installments of a loan are computed.
#[derive(Clone, Copy, Debug, PartialEq, Eq, Structural)]
pub enum InterestMethod {
    /// Equal Monthly Installments: a fixed periodic payment.
    EMI,
    /// Fixed principal payments and decreasing total payments.
    ReducingBalance,
}

/// One period of a schedule.
#[derive(Clone, Copy, Debug, PartialEq, Eq)]
pub struct AmortizationRow {
    pub period: u32,
    pub opening_balance: Dec,
    pub principal_payment: Dec,
    pub interest_payment: Dec,
    pub total_payment: Dec,
    pub closing_balance: Dec,
}

/// The periodic rate: the annual rate divided by 12.
pub open spec fn monthly_rate(annual_rate: Dec) -> Option<Dec> {
    decimal_div(annual_rate, Dec::spec_new(12, 0))
}

/// The installment `P * (r * (1+r)^n) / ((1+r)^n - 1)`, rounded to two places
/// (or `P / n` at a zero rate).
pub open spec fn emi_installment(principal: Dec, r: Dec, periods: u32) -> Option<Dec> {
    match o_powu(decimal_add(Dec::spec_new(1, 0), r), periods as u64) {
        None => None,
        Some(p) => if r.is_zero_value() {
            decimal_div(principal, Dec::spec_from_u64(periods as u64))
        } else {
            o_round(
                o_div(o_mul(Some(principal), decimal_mul(r, p)), decimal_sub(p, Dec::spec_new(1, 0))),
                2,
            )
        },
    }
}

/// The fixed principal payment `P / n` of the reducing balance method, rounded to two places.
pub open spec fn fixed_principal(principal: Dec, periods: u32) -> Option<Dec> {
    o_round(decimal_div(principal, Dec::spec_from_u64(periods as u64)), 2)
}

/// The installment (EMI) or fixed principal payment (reducing balance).
pub open spec fn base_payment(principal: Dec, r: Dec, periods: u32, method: InterestMethod) -> Option<
    Dec,
> {
    match method {
        InterestMethod::EMI => emi_installment(principal, r, periods),
        InterestMethod::ReducingBalance => fixed_principal(principal, periods),
    }
}

/// The balance and rows after the first `k` periods.  Each period charges
/// `balance * r` rounded to two places; its principal payment is the
/// installment less that interest (EMI) or the fixed payment, except that the
/// last period pays the whole balance.
pub open spec fn schedule_state(
    principal: Dec,
    r: Dec,
    payment: Dec,
    periods: u32,
    method: InterestMethod,
    k: nat,
) -> Option<(Dec, Seq<AmortizationRow>)>
    decreases k,
{
    if k == 0 {
        Some((principal, Seq::empty()))
    } else {
        match schedule_state(principal, r, payment, periods, method, (k - 1) as nat) {
            None => None,
            Some((current, rows)) => {
                let interest = o_round(decimal_mul(current, r), 2);
                let computed = match method {
                    InterestMethod::EMI => o_sub(Some(payment), interest),
                    InterestMethod::ReducingBalance => Some(payment),
                };
                match (interest, computed) {
                    (Some(charge), Some(p0)) => {
                        let pp = if k == periods {
                            current
                        } else {
                            p0
                        };
                        match (decimal_add(pp, charge), decimal_sub(current, pp)) {
                            (Some(total), Some(closing)) => Some(
                                (
                                    closing,
                                    rows.push(
                                        AmortizationRow {
                                            period: k as u32,
                                            opening_balance: decimal_round_dp(current, 2),
                                            principal_payment: decimal_round_dp(pp, 2),
                                            interest_payment: charge,
                                            total_payment: decimal_round_dp(total, 2),
                                            closing_balance: decimal_round_dp(closing, 2),
                                        },
                                    ),
                                ),
                            ),
                            _ => None,
                        }
                    },
                    _ => None,
                }
            },
        }
    }
}

/// The schedule of a loan (`None` where a decimal operation overflows).
pub open spec fn amortization_schedule(
    principal: Dec,
    annual_rate: Dec,
    periods: u32,
    method: InterestMethod,
) -> Option<Seq<AmortizationRow>> {
    if periods == 0 {
        Some(Seq::empty())
    } else {
        match monthly_rate(annual_rate) {
            None => None,
            Some(r) => match base_payment(principal, r, periods, method) {
                None => None,
                Some(pay) => match schedule_state(principal, r, pay, periods, method, periods as nat) {
                    None => None,
                    Some((_, rows)) => Some(rows),
                },
            },
        }
    }
}

/// Whether the balance left after `j` fixed payments of `pay`, exactly
/// `principal - j * pay`, can be held at two places.
pub open spec fn step_fits(principal: Dec, pay: Dec, j: int) -> bool {
    fits_at_scale(principal.units() - j * pay.units(), 2)
}

/// Whether a reducing-balance schedule runs without loss: a principal with
/// at most two places, and every balance left after the fixed payments held
/// exactly at two places.
pub open spec fn exact_reducing_balance(principal: Dec, periods: u32, method: InterestMethod) -> bool {
    &&& method == InterestMethod::ReducingBalance
    &&& periods > 0
    &&& principal.scale_of() <= 2
    &&& fixed_principal(principal, periods) matches Some(pay)
    &&& forall|j: int| 0 < j < periods ==> #[trigger] step_fits(principal, pay, j)
}

/// Whether each row's total payment is its principal plus its interest,
/// wherever that sum can be held at two places.
pub open spec fn rows_add_up(rows: Seq<AmortizationRow>) -> bool {
    forall|i: int|
        0 <= i < rows.len() && fits_at_scale(
            rows[i].principal_payment.units() + rows[i].interest_payment.units(),
            2,
        ) ==> (#[trigger] rows[i]).total_payment.units() == rows[i].principal_payment.units()
            + rows[i].interest_payment.units()
}

/// The total of the principal payments of the rows, in units of 10^-28.
pub open spec fn principal_paid(rows: Seq<AmortizationRow>) -> int
    decreases rows.len(),
{
    if rows.len() == 0 {
        0
    } else {
        principal_paid(rows.drop_last()) + rows.last().principal_payment.units()
    }
}

/// The growth factor `(1 + r)^n` of `rate` over `periods`.
pub open spec fn growth(r: Dec, periods: u32) -> Option<Dec> {
    match decimal_add(Dec::spec_new(1, 0), r) {
        Some(x) => decimal_powu(x, periods as u64),
        None => None,
    }
}

/// Whether the installment `P r p / (p - 1)` for the growth factor `p` is
/// computed without loss: exact products, an exact `p - 1`, a division on
/// the exact path, and a quotient already at two places.
pub open spec fn installment_exact(principal: Dec, r: Dec, periods: u32) -> bool {
    &&& growth(r, periods) is Some
    &&& ({
        let p = growth(r, periods).unwrap();
        let one = Dec::spec_new(1, 0);
        &&& mul_exact(r, p)
        &&& decimal_mul(r, p) is Some
        &&& mul_exact(principal, decimal_mul(r, p).unwrap())
        &&& decimal_mul(principal, decimal_mul(r, p).unwrap()) is Some
        &&& fits_at_scale(p.units() - one.units(), max_nat(p.scale_of(), one.scale_of()))
        &&& decimal_sub(p, one) is Some
        &&& div_exact(decimal_mul(principal, decimal_mul(r, p).unwrap()).unwrap(), decimal_sub(p, one).unwrap())
        &&& decimal_div(
            decimal_mul(principal, decimal_mul(r, p).unwrap()).unwrap(),
            decimal_sub(p, one).unwrap(),
        ) matches Some(q) && q.scale_of() <= 2
    })
}

proof fn lemma_fixed_share(principal: Dec, periods: u32, q: Option<Dec>)
    requires
        q == decimal_div(principal, Dec::spec_from_u64(periods as u64)),
        principal.scale_of() <= 28,
        div_exact(principal, Dec::spec_from_u64(periods as u64)) ==> q is Some && q.unwrap().mag()
            == principal.mag() / Dec::spec_from_u64(periods as u64).mag() && q.unwrap().scale_of()
            == principal.scale_of() - Dec::spec_from_u64(periods as u64).scale_of() && q.unwrap().is_neg() == (
        principal.is_neg() != Dec::spec_from_u64(periods as u64).is_neg()),
        Dec::spec_from_u64(periods as u64).units() == periods as int * pow10(28),
        Dec::spec_from_u64(periods as u64).scale_of() == 0,
    ensures
        div_exact(principal, Dec::spec_from_u64(periods as u64)) ==> q is Some && q.unwrap().units() * periods
            == principal.units(),
{
    let n = Dec::spec_from_u64(periods as u64);
    if div_exact(principal, n) {
        let c = q.unwrap();
        lemma_div_exact_units(principal, n, c);
        crate::decimal::lemma_pow10_positive(28);
        assert(c.units() * periods == principal.units()) by (nonlinear_arith)
            requires
                c.units() * n.units() == principal.units() * pow10(28),
                n.units() == periods as int * pow10(28),
                pow10(28) > 0,
        ;
    }
}

/// The installment of an EMI loan at a non-zero rate `r` over `n` periods
/// satisfies `M · ((1 + r)^n - 1) = P · r · (1 + r)^n` (in units of
/// 10^-28, scaled once more by 10^28), wherever it is computed without loss.
fn base_payment_exec(principal: Dec, r: Dec, periods: u32, method: InterestMethod) -> (res: Option<
    Dec,
>)
    ensures
        res == base_payment(principal, r, periods, method),
        method == InterestMethod::EMI && !r.is_zero_value() && installment_exact(principal, r, periods) ==> res is Some
            && res.unwrap().units() * (growth(r, periods).unwrap().units() - pow10(28)) * pow10(28)
            == principal.units() * r.units() * growth(r, periods).unwrap().units(),
        (method == InterestMethod::ReducingBalance || (growth(r, periods) is Some && r.is_zero_value()))
            && div_exact(principal, Dec::spec_from_u64(periods as u64)) && decimal_div(
            principal,
            Dec::spec_from_u64(periods as u64),
        ) is Some && decimal_div(principal, Dec::spec_from_u64(periods as u64)).unwrap().scale_of() <= 2
            ==> res is Some && res.unwrap().units() * periods == principal.units(),
{
    match method {
        InterestMethod::EMI => {
            let one = Dec::new(1, 0);
            let one_plus_r = one.checked_add(&r);
            let pow = match one_plus_r {
                Some(x) => x.checked_powu(periods as u64),
                None => None,
            };
            match pow {
                None => None,
                Some(p) => {
                    if r.is_zero() {
                        let n = Dec::from_u64(periods as u64);
                        let _ = principal.scale();
                        let _ = n.scale();
                        let q = principal.checked_div(&n);
                        proof {
                            lemma_fixed_share(principal, periods, q);
                            if q is Some {
                                Dec::lemma_round_dp(q.unwrap(), 2);
                            }
                        }
                        q
                    } else {
                        let rp = r.checked_mul(&p);
                        let numerator = match rp {
                            Some(x) => principal.checked_mul(&x),
                            None => None,
                        };
                        let pm1 = p.checked_sub(&one);
                        let q = match (numerator, pm1) {
                            (Some(a), Some(b)) => {
                                let _ = a.scale();
                                let _ = b.scale();
                                a.checked_div(&b)
                            },
                            _ => None,
                        };
                        let res = match q {
                            Some(x) => Some(x.round_dp(2)),
                            None => None,
                        };
                        proof {
                            if installment_exact(principal, r, periods) {
                                let x = rp.unwrap();
                                let a = numerator.unwrap();
                                let b = pm1.unwrap();
                                let c = q.unwrap();
                                assert(one.units() == pow10(28));
                                lemma_div_exact_units(a, b, c);
                                assert(c.units() * (p.units() - pow10(28)) * pow10(28) == principal.units()
                                    * r.units() * p.units()) by (nonlinear_arith)
                                    requires
                                        c.units() * b.units() == a.units() * pow10(28),
                                        b.units() == p.units() - pow10(28),
                                        a.units() * pow10(28) == principal.units() * x.units(),
                                        x.units() * pow10(28) == r.units() * p.units(),
                                ;
                            }
                        }
                        res
                    }
                },
            }
        },
        InterestMethod::ReducingBalance => {
            let n = Dec::from_u64(periods as u64);
            let _ = principal.scale();
            let _ = n.scale();
            let q = principal.checked_div(&n);
            proof {
                lemma_fixed_share(principal, periods, q);
                if q is Some {
                    Dec::lemma_round_dp(q.unwrap(), 2);
                }
            }
            crate::decimal::round_opt(q, 2)
        },
    }
}

/// The schedule of a loan, or `None` where a decimal operation overflows.
pub fn checked_calculate_amortization(
    principal: Dec,
    annual_rate: Dec,
    periods: u32,
    method: InterestMethod,
) -> (res: Option<Vec<AmortizationRow>>)
    ensures
        res is Some <==> amortization_schedule(principal, annual_rate, periods, method) is Some,
        res matches Some(rows) ==> rows@ == amortization_schedule(
            principal,
            annual_rate,
            periods,
            method,
        ).unwrap(),
        res matches Some(rows) ==> (rows@.len() > 0 ==> rows@.last().closing_balance.is_zero_value()),
        res matches Some(rows) ==> (exact_reducing_balance(principal, periods, method) ==> principal_paid(
            rows@,
        ) == principal.units() && rows_add_up(rows@)),
{
    if periods == 0 {
        return Some(Vec::new());
    }
    let r = match annual_rate.checked_div(&Dec::new(12, 0)) {
        Some(x) => x,
        None => {
            return None;
        },
    };
    let payment = match base_payment_exec(principal, r, periods, method) {
        Some(x) => x,
        None => {
            return None;
        },
    };
    let ghost exact = method == InterestMethod::ReducingBalance && principal.scale_of() <= 2 && (forall|
        j: int,
    | 0 < j < periods ==> #[trigger] step_fits(principal, payment, j));
    proof {
        if method == InterestMethod::ReducingBalance {
            let q = crate::decimal::decimal_div(principal, Dec::spec_from_u64(periods as u64)).unwrap();
            Dec::lemma_round_dp(q, 2);
        }
    }
    let mut schedule: Vec<AmortizationRow> = Vec::new();
    let mut current = principal;
    let mut ok = true;
    let mut k: u32 = 0;
    proof {
        assert(principal_paid(schedule@) == 0);
        assert(principal.units() - 0 * payment.units() == principal.units());
    }
    while k < periods
        invariant
            k <= periods,
            exact == (method == InterestMethod::ReducingBalance && principal.scale_of() <= 2 && (forall|
                j: int,
            | 0 < j < periods ==> #[trigger] step_fits(principal, payment, j))),
            method == InterestMethod::ReducingBalance ==> payment.scale_of() <= 2,
            ok && exact && k < periods ==> current.units() == principal.units() - k * payment.units()
                && current.scale_of() <= 2 && principal_paid(schedule@) == k * payment.units(),
            ok && exact && k == periods ==> principal_paid(schedule@) == principal.units(),
            ok && exact ==> rows_add_up(schedule@),
            ok ==> schedule_state(principal, r, payment, periods, method, k as nat) == Some(
                (current, schedule@),
            ),
            !ok ==> schedule_state(principal, r, payment, periods, method, k as nat) is None,
            ok && k == periods && k > 0 ==> schedule@.last().closing_balance.is_zero_value(),
        decreases periods - k,
    {
        if ok {
            let interest = crate::decimal::round_opt(current.checked_mul(&r), 2);
            let computed = match method {
                InterestMethod::EMI => crate::decimal::sub_opt(Some(payment), interest),
                InterestMethod::ReducingBalance => Some(payment),
            };
            match (interest, computed) {
                (Some(charge), Some(p0)) => {
                    let pp = if k + 1 == periods {
                        current
                    } else {
                        p0
                    };
                    proof {
                        if exact {
                            let u = current.units() - pp.units();
                            if k + 1 < periods {
                                assert(step_fits(principal, payment, (k + 1) as int));
                                assert(u == principal.units() - (k + 1) * payment.units()) by (nonlinear_arith)
                                    requires
                                        u == current.units() - pp.units(),
                                        current.units() == principal.units() - k * payment.units(),
                                        pp.units() == payment.units(),
                                ;
                            } else {
                                assert(u == 0);
                                crate::decimal::lemma_pow10_positive(26);
                            }
                            lemma_fits_smaller_scale(u, max_nat(current.scale_of(), pp.scale_of()), 2);
                            let m = crate::decimal::decimal_mul(current, r).unwrap();
                            Dec::lemma_round_dp(m, 2);
                            assert(charge.scale_of() <= 2);
                            assert(pp.scale_of() <= 2);
                            if fits_at_scale(pp.units() + charge.units(), 2) {
                                lemma_fits_smaller_scale(
                                    pp.units() + charge.units(),
                                    max_nat(pp.scale_of(), charge.scale_of()),
                                    2,
                                );
                            }
                        }
                    }
                    let ghost before = schedule@;
                    match (pp.checked_add(&charge), current.checked_sub(&pp)) {
                        (Some(total), Some(closing)) => {
                            schedule.push(
                                AmortizationRow {
                                    period: k + 1,
                                    opening_balance: current.round_dp(2),
                                    principal_payment: pp.round_dp(2),
                                    interest_payment: charge,
                                    total_payment: total.round_dp(2),
                                    closing_balance: closing.round_dp(2),
                                },
                            );
                            proof {
                                assert(schedule@.drop_last() =~= before);
                                if exact {
                                    assert forall|i: int|
                                        0 <= i < schedule@.len() && fits_at_scale(
                                            schedule@[i].principal_payment.units()
                                                + schedule@[i].interest_payment.units(),
                                            2,
                                        ) implies (#[trigger] schedule@[i]).total_payment.units()
                                        == schedule@[i].principal_payment.units()
                                        + schedule@[i].interest_payment.units() by {
                                        if i < before.len() {
                                            assert(schedule@[i] == before[i]);
                                        }
                                    }
                                }
                                if exact {
                                    assert(principal_paid(schedule@) == principal_paid(before) + pp.units());
                                    if k + 1 < periods {
                                        assert(principal_paid(schedule@) == (k + 1) * payment.units())
                                            by (nonlinear_arith)
                                            requires
                                                principal_paid(schedule@) == principal_paid(before)
                                                    + pp.units(),
                                                principal_paid(before) == k * payment.units(),
                                                pp.units() == payment.units(),
                                        ;
                                    }
                                }
                            }
                            current = closing;
                        },
                        _ => {
                            ok = false;
                        },
                    }
                },
                _ => {
                    ok = false;
                },
            }
        }
        k += 1;
    }
    proof {
        if ok {
            lemma_schedule_state_shape(principal, r, payment, periods, method, periods as nat);
        }
    }
    if ok {
        Some(schedule)
    } else {
        None
    }
}

/// Calculates a loan amortization schedule using either the EMI or the
/// reducing balance interest method.  A reducing-balance schedule that runs
/// without loss pays exactly the principal back over its rows, each row's
/// total payment being its principal plus its interest.
pub fn calculate_amortization(
    principal: Dec,
    annual_rate: Dec,
    periods: u32,
    method: InterestMethod,
) -> (res: Vec<AmortizationRow>)
    requires
        amortization_schedule(principal, annual_rate, periods, method) is Some,
    ensures
        res@ == amortization_schedule(principal, annual_rate, periods, method).unwrap(),
        res@.len() > 0 ==> res@.last().closing_balance.is_zero_value(),
        exact_reducing_balance(principal, periods, method) ==> principal_paid(res@) == principal.units()
            && rows_add_up(res@),
{
    checked_calculate_amortization(principal, annual_rate, periods, method).unwrap()
}

/// The rows built after `k` periods: one per period, numbered from 1, each
/// opening at the balance the one before closed at, the last closing at the
/// balance carried on.
proof fn lemma_schedule_state_shape(
    principal: Dec,
    r: Dec,
    payment: Dec,
    periods: u32,
    method: InterestMethod,
    k: nat,
)
    requires
        k <= periods,
    ensures
        schedule_state(principal, r, payment, periods, method, k) matches Some((cur, rows)) ==> {
            &&& rows.len() == k
            &&& forall|j: int| 0 <= j < k ==> #[trigger] rows[j].period == j + 1
            &&& forall|j: int|
                0 <= j < k - 1 ==> #[trigger] rows[j].closing_balance == rows[j + 1].opening_balance
            &&& k > 0 ==> rows[k - 1].closing_balance == decimal_round_dp(cur, 2)
            &&& k == 0 ==> cur == principal
            &&& k == periods && k > 0 ==> rows[k - 1].principal_payment == rows[k - 1].opening_balance
        },
    decreases k,
{
    if k > 0 {
        lemma_schedule_state_shape(principal, r, payment, periods, method, (k - 1) as nat);
    }
}

/// The shape of every schedule: one row per period, the periods numbered 1
/// to `periods`, each period opening at the balance the one before closed at
/// (the first at the principal, rounded), and the last period paying off its
/// whole opening balance as principal.
pub proof fn lemma_schedule_shape(principal: Dec, annual_rate: Dec, periods: u32, method: InterestMethod)
    ensures
        amortization_schedule(principal, annual_rate, periods, method) matches Some(rows) ==> {
            &&& rows.len() == periods
            &&& forall|j: int| 0 <= j < periods ==> #[trigger] rows[j].period == j + 1
            &&& forall|j: int|
                0 <= j < periods - 1 ==> #[trigger] rows[j].closing_balance == rows[j + 1].opening_balance
            &&& periods > 0 ==> rows[0].opening_balance == decimal_round_dp(principal, 2)
            &&& periods > 0 ==> rows[periods - 1].principal_payment == rows[periods - 1].opening_balance
        },
{
    if periods > 0 {
        if let Some(r) = monthly_rate(annual_rate) {
            if let Some(pay) = base_payment(principal, r, periods, method) {
                lemma_schedule_state_shape(principal, r, pay, periods, method, periods as nat);
                lemma_first_row_opens_at_principal(principal, r, pay, periods, method, periods as nat);
            }
        }
    }
}

proof fn lemma_first_row_opens_at_principal(
    principal: Dec,
    r: Dec,
    payment: Dec,
    periods: u32,
    method: InterestMethod,
    k: nat,
)
    requires
        1 <= k <= periods,
    ensures
        schedule_state(principal, r, payment, periods, method, k) matches Some((_, rows)) ==> rows[0].opening_balance
            == decimal_round_dp(principal, 2),
    decreases k,
{
    if k > 1 {
        lemma_first_row_opens_at_principal(principal, r, payment, periods, method, (k - 1) as nat);
        lemma_schedule_state_shape(principal, r, payment, periods, method, (k - 1) as nat);
    } else {
        reveal_with_fuel(schedule_state, 2);
    }
}

} // verus!
