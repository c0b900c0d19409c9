//! Payroll: progressive income tax, salary slips from evaluated components,
//! and the ledger postings of a payroll batch.
use vstd::prelude::*;
use vstd::string::StringExecFns;
use crate::accounting::LedgerError;
use crate::accounting::posting::{
    GLEntry, balance_verdict, check_balance, credits, debits, validation,
};
use crate::accounting::record::RecordRef;
use crate::decimal::{
    Dec, add_to_sum, decimal_add, decimal_mul, decimal_round_dp, decimal_sub, exact_sum, fits_at_scale,
    lemma_exact_sum_cons, lemma_fits_smaller_scale, lemma_seq_max_scale, lemma_sum_push, max_nat, o_add,
    o_sub, seq_max_scale, sum_fits, sum_prefix,
};
use crate::maps::{DecimalMap, insert_all, lemma_insert_all_push};

verus! {

/// A salary component and the formula that computes it.
#[derive(Clone, Debug)]
pub struct SalaryComponent {
    pub name: String,
    pub formula: String,
}

/// A salary structure: base pay, earnings and deductions.
#[derive(Clone, Debug)]
pub struct SalaryStructure {
    pub base_pay: Dec,
    pub earnings: Vec<SalaryComponent>,
    pub deductions: Vec<SalaryComponent>,
}

/// A tax slab: income above `min_amount`, up to `max_amount` where there is
/// one, is taxed at `rate`, and the slab adds `flat_amount`.
#[derive(Clone, Copy, Debug)]
pub struct TaxSlab {
    pub min_amount: Dec,
    pub max_amount: Option<Dec>,
    pub rate: Dec,
    pub flat_amount: Dec,
}

/// A computed salary slip.
#[derive(Clone, Debug)]
pub struct SalarySlipResult {
    pub employee_id: String,
    pub base_pay: Dec,
    pub gross_pay: Dec,
    pub total_deductions: Dec,
    pub net_pay: Dec,
    pub earnings: DecimalMap,
    pub deductions: DecimalMap,
}

/// Errors of payroll processing.
#[derive(Debug, Clone)]
pub enum PayrollError {
    /// The formula of a component (named first) failed, with the evaluator's message.
    Evaluation(String, String),
    /// The ledger refused the postings.
    Ledger(LedgerError),
}

/// The tax of one slab on `income`: where the income exceeds the slab's
/// minimum, the income up to the slab's maximum less the minimum, times the
/// rate, plus the flat amount; else nothing.
pub open spec fn slab_tax(income: Dec, slab: TaxSlab) -> Option<Dec> {
    let max = match slab.max_amount {
        Some(m) => m,
        None => income,
    };
    let capped = if max.units() < income.units() {
        max
    } else {
        income
    };
    o_add(o_mul_some(decimal_sub(capped, slab.min_amount), slab.rate), Some(slab.flat_amount))
}

/// `a * b` where `a` is present.
pub open spec fn o_mul_some(a: Option<Dec>, b: Dec) -> Option<Dec> {
    match a {
        Some(x) => decimal_mul(x, b),
        None => None,
    }
}

/// The tax on `income` over the first `k` slabs, each slab that the income
/// exceeds adding its tax in turn.
pub open spec fn progressive_tax(income: Dec, slabs: Seq<TaxSlab>, k: nat) -> Option<Dec>
    decreases k,
{
    if k == 0 {
        Some(Dec::spec_zero())
    } else {
        let prev = progressive_tax(income, slabs, (k - 1) as nat);
        let slab = slabs[k - 1];
        if slab.min_amount.units() < income.units() {
            o_add(prev, slab_tax(income, slab))
        } else {
            prev
        }
    }
}

/// The progressive tax on `income`; `None` where an operation overflows.
pub fn checked_calculate_progressive_tax(income: Dec, slabs: &[TaxSlab]) -> (r: Option<Dec>)
    ensures
        r == progressive_tax(income, slabs@, slabs@.len()),
{
    let mut tax: Option<Dec> = Some(Dec::zero());
    let mut i: usize = 0;
    while i < slabs.len()
        invariant
            i <= slabs.len(),
            tax == progressive_tax(income, slabs@, i as nat),
        decreases slabs.len() - i,
    {
        let slab = slabs[i];
        if slab.min_amount.lt(&income) {
            let max = match slab.max_amount {
                Some(m) => m,
                None => income,
            };
            let capped = if max.lt(&income) {
                max
            } else {
                income
            };
            let applicable = capped.checked_sub(&slab.min_amount);
            let part = match applicable {
                Some(a) => a.checked_mul(&slab.rate),
                None => None,
            };
            let slab_amount = crate::decimal::add_opt(part, Some(slab.flat_amount));
            tax = crate::decimal::add_opt(tax, slab_amount);
        }
        i += 1;
    }
    tax
}

/// Calculates progressive tax over tax slabs: each slab that the income
/// exceeds taxes the income between its minimum and its maximum (or all of
/// the income above the minimum where it has none) at its rate, and adds its
/// flat amount.
pub fn calculate_progressive_tax(income: Dec, slabs: &[TaxSlab]) -> (r: Dec)
    requires
        progressive_tax(income, slabs@, slabs@.len()) is Some,
    ensures
        Some(r) == progressive_tax(income, slabs@, slabs@.len()),
{
    checked_calculate_progressive_tax(income, slabs).unwrap()
}

/// The component amounts rounded to 2 places, in order.
pub open spec fn rounded(components: Seq<(String, Dec)>) -> Seq<Dec> {
    components.map_values(|c: (String, Dec)| decimal_round_dp(c.1, 2))
}

/// The component names with their amounts rounded to 2 places, in order.
pub open spec fn rounded_pairs(components: Seq<(String, Dec)>) -> Seq<(Seq<char>, Dec)> {
    components.map_values(|c: (String, Dec)| (c.0@, decimal_round_dp(c.1, 2)))
}

/// `start` plus the first `k` amounts, added from the left.
pub open spec fn sum_from(start: Dec, s: Seq<Dec>, k: nat) -> Option<Dec>
    decreases k,
{
    if k == 0 {
        Some(start)
    } else {
        o_add(sum_from(start, s, (k - 1) as nat), Some(s[k - 1]))
    }
}

/// Gross pay: the base pay plus every earning rounded to 2 places.
pub open spec fn gross_of(base_pay: Dec, earnings: Seq<(String, Dec)>) -> Option<Dec> {
    sum_from(base_pay, rounded(earnings), earnings.len())
}

/// The amounts of a slip: gross pay, income tax (rounded to 2 places), total
/// deductions (the rounded deductions, then the tax where it is not zero) and
/// net pay (gross less deductions).
pub open spec fn slip_amounts(
    base_pay: Dec,
    earnings: Seq<(String, Dec)>,
    deductions: Seq<(String, Dec)>,
    slabs: Seq<TaxSlab>,
) -> Option<(Dec, Dec, Dec, Dec)> {
    match gross_of(base_pay, earnings) {
        None => None,
        Some(gross) => match (
            sum_prefix(rounded(deductions), deductions.len()),
            progressive_tax(gross, slabs, slabs.len()),
        ) {
            (Some(d), Some(t)) => {
                let tax = decimal_round_dp(t, 2);
                let total = if tax.is_zero_value() {
                    Some(d)
                } else {
                    decimal_add(d, tax)
                };
                match total {
                    Some(td) => match decimal_sub(gross, td) {
                        Some(net) => Some((gross, tax, td, net)),
                        None => None,
                    },
                    None => None,
                }
            },
            _ => None,
        }
    }
}

/// The deduction amounts of a slip: the rounded deductions, then the income
/// tax where it is not zero.
pub open spec fn slip_deduction_amounts(deductions: Seq<(String, Dec)>, tax: Dec) -> Seq<Dec> {
    if tax.is_zero_value() {
        rounded(deductions)
    } else {
        rounded(deductions).push(tax)
    }
}

fn round_components(components: &Vec<(String, Dec)>, start: Dec, map: &mut DecimalMap) -> (r: Option<Dec>)
    ensures
        r == sum_from(start, rounded(components@), components@.len()),
        sum_fits(seq![start] + rounded(components@)) ==> r is Some && r.unwrap().units() == start.units()
            + exact_sum(rounded(components@), components@.len()) && r.unwrap().scale_of() <= seq_max_scale(
            seq![start] + rounded(components@),
        ),
        final(map).pairs() == insert_all(old(map).pairs(), rounded_pairs(components@)),
{
    let ghost rs = rounded(components@);
    let ghost running = seq![start] + rs;
    let ghost base = map.pairs();
    proof {
        lemma_seq_max_scale(running);
        lemma_exact_sum_cons(start, rs, 0);
        assert(running[0] == start);
    }
    let mut total: Option<Dec> = Some(start);
    let mut i: usize = 0;
    while i < components.len()
        invariant
            i <= components.len(),
            rs == rounded(components@),
            total == sum_from(start, rs, i as nat),
            map.pairs() == insert_all(base, rounded_pairs(components@).take(i as int)),
            running == seq![start] + rs,
            sum_fits(running) ==> total is Some && total.unwrap().units() == exact_sum(running, (i + 1) as nat)
                && total.unwrap().scale_of() <= seq_max_scale(running),
        decreases components.len() - i,
    {
        let c = &components[i];
        let amount = c.1.round_dp(2);
        map.insert(c.0.clone(), amount);
        proof {
            assert(rs[i as int] == amount);
            assert(running[i + 1] == amount);
            if sum_fits(running) {
                lemma_seq_max_scale(running);
                assert(fits_at_scale(exact_sum(running, (i + 2) as nat), seq_max_scale(running)));
                lemma_fits_smaller_scale(
                    total.unwrap().units() + amount.units(),
                    max_nat(total.unwrap().scale_of(), amount.scale_of()),
                    seq_max_scale(running),
                );
            }
        }
        total = match total {
            Some(tv) => tv.checked_add(&amount),
            None => None,
        };
        proof {
            assert(rs[i as int] == amount);
            assert(rounded_pairs(components@).take(i + 1) =~= rounded_pairs(components@).take(
                i as int,
            ).push((c.0@, amount)));
            lemma_insert_all_push(base, rounded_pairs(components@).take(i as int), (c.0@, amount));
        }
        i += 1;
    }
    proof {
        assert(rounded_pairs(components@).take(components@.len() as int) =~= rounded_pairs(
            components@,
        ));
        lemma_exact_sum_cons(start, rs, components@.len());
    }
    total
}

/// The gross pay of a slip: the base pay plus each earning rounded to 2
/// places; `None` where the sum overflows.
pub fn checked_gross_pay(base_pay: Dec, earnings: &Vec<(String, Dec)>) -> (r: Option<Dec>)
    ensures
        r == gross_of(base_pay, earnings@),
{
    let mut scratch = DecimalMap::new();
    round_components(earnings, base_pay, &mut scratch)
}

/// The exact total of the net pays is the exact total of the gross pays less
/// the deductions, where each slip's net pay is its gross less its deductions.
proof fn lemma_net_sum(slips: Seq<SalarySlipResult>, k: nat)
    requires
        k <= slips.len(),
        forall|i: int|
            0 <= i < slips.len() ==> #[trigger] slips[i].net_pay.units() == slips[i].gross_pay.units()
                - slips[i].total_deductions.units(),
    ensures
        exact_sum(net_pays(slips), k) == exact_sum(gross_pays(slips), k) - exact_sum(
            deduction_totals(slips),
            k,
        ),
    decreases k,
{
    if k > 0 {
        lemma_net_sum(slips, (k - 1) as nat);
        assert(slips[k - 1].net_pay.units() == slips[k - 1].gross_pay.units() - slips[k
            - 1].total_deductions.units());
    }
}

proof fn lemma_sum_from_zero(s: Seq<Dec>, k: nat)
    ensures
        sum_from(Dec::spec_zero(), s, k) == sum_prefix(s, k),
    decreases k,
{
    if k > 0 {
        lemma_sum_from_zero(s, (k - 1) as nat);
    }
}

/// Assembles a salary slip from the evaluated amounts of its components, in
/// the order of the structure: every amount is rounded to 2 places; gross pay
/// is the base pay plus the earnings; the income tax on gross pay, rounded to
/// 2 places, joins the deductions (as `Income Tax`) where it is not zero; net
/// pay is gross pay less the deductions.  `None` where a sum overflows.
/// Where the sums are exact, gross pay is the base pay plus the rounded
/// earnings, total deductions the sum of the deduction amounts, and net pay
/// their difference.
pub fn checked_assemble_salary_slip(
    employee_id: String,
    base_pay: Dec,
    earnings: &Vec<(String, Dec)>,
    deductions: &Vec<(String, Dec)>,
    tax_slabs: &[TaxSlab],
) -> (r: Option<SalarySlipResult>)
    ensures
        r is Some <==> slip_amounts(base_pay, earnings@, deductions@, tax_slabs@) is Some,
        r matches Some(slip) ==> {
            let (gross, tax, td, net) = slip_amounts(
                base_pay,
                earnings@,
                deductions@,
                tax_slabs@,
            ).unwrap();
            &&& slip.employee_id == employee_id
            &&& slip.base_pay == base_pay
            &&& slip.gross_pay == gross
            &&& slip.total_deductions == td
            &&& slip.net_pay == net
            &&& slip.earnings.pairs() == insert_all(Seq::empty(), rounded_pairs(earnings@))
            &&& slip.deductions.pairs() == insert_all(
                Seq::empty(),
                if tax.is_zero_value() {
                    rounded_pairs(deductions@)
                } else {
                    rounded_pairs(deductions@).push(("Income Tax"@, tax))
                },
            )
            &&& sum_fits(seq![base_pay] + rounded(earnings@)) ==> slip.gross_pay.units() == base_pay.units()
                + exact_sum(rounded(earnings@), earnings@.len())
            &&& sum_fits(seq![Dec::spec_zero()] + slip_deduction_amounts(deductions@, tax))
                ==> slip.total_deductions.units() == exact_sum(
                slip_deduction_amounts(deductions@, tax),
                slip_deduction_amounts(deductions@, tax).len(),
            )
            &&& fits_at_scale(
                slip.gross_pay.units() - slip.total_deductions.units(),
                max_nat(slip.gross_pay.scale_of(), slip.total_deductions.scale_of()),
            ) ==> slip.net_pay.units() == slip.gross_pay.units() - slip.total_deductions.units()
        },
{
    let mut earnings_map = DecimalMap::new();
    let gross = match round_components(earnings, base_pay, &mut earnings_map) {
        Some(g) => g,
        None => {
            return None;
        },
    };

    let mut deductions_map = DecimalMap::new();
    let ded = round_components(deductions, Dec::zero(), &mut deductions_map);
    proof {
        lemma_sum_from_zero(rounded(deductions@), deductions@.len());

    }
    let raw_tax = checked_calculate_progressive_tax(gross, tax_slabs);
    let (d, t) = match (ded, raw_tax) {
        (Some(d), Some(t)) => (d, t),
        _ => {
            return None;
        },
    };
    let tax = t.round_dp(2);
    proof {
        Dec::lemma_zero_units();
        let z = Dec::spec_zero();
        let rd = rounded(deductions@);
        let with_tax = seq![z] + rd.push(tax);
        if !tax.is_zero_value() && sum_fits(with_tax) {
            assert(with_tax =~= (seq![z] + rd).push(tax));
            lemma_sum_push(seq![z] + rd, tax);
            lemma_seq_max_scale(with_tax);
            assert(with_tax[rd.len() as int + 1] == tax);
            lemma_exact_sum_cons(z, rd.push(tax), rd.len() + 1);
            lemma_sum_push(rd, tax);
            lemma_fits_smaller_scale(
                d.units() + tax.units(),
                max_nat(d.scale_of(), tax.scale_of()),
                seq_max_scale(with_tax),
            );
        }
    }
    let total = if !tax.is_zero() {
        proof {
            reveal_strlit("Income Tax");
            lemma_insert_all_push(Seq::empty(), rounded_pairs(deductions@), ("Income Tax"@, tax));
        }
        deductions_map.insert(String::from_str("Income Tax"), tax);
        d.checked_add(&tax)
    } else {
        Some(d)
    };
    let td = match total {
        Some(x) => x,
        None => {
            return None;
        },
    };
    let net = match gross.checked_sub(&td) {
        Some(n) => n,
        None => {
            return None;
        },
    };
    Some(
        SalarySlipResult {
            employee_id,
            base_pay,
            gross_pay: gross,
            total_deductions: td,
            net_pay: net,
            earnings: earnings_map,
            deductions: deductions_map,
        },
    )
}

/// The totals of a batch of slips: gross pay, deductions and net pay, each
/// added from the left.
pub open spec fn batch_totals(slips: Seq<SalarySlipResult>) -> Option<(Dec, Dec, Dec)> {
    match (
        sum_prefix(gross_pays(slips), slips.len()),
        sum_prefix(deduction_totals(slips), slips.len()),
        sum_prefix(net_pays(slips), slips.len()),
    ) {
        (Some(g), Some(d), Some(n)) => Some((g, d, n)),
        _ => None,
    }
}

/// The gross pays of the slips.
pub open spec fn gross_pays(slips: Seq<SalarySlipResult>) -> Seq<Dec> {
    slips.map_values(|s: SalarySlipResult| s.gross_pay)
}

/// The total deductions of the slips.
pub open spec fn deduction_totals(slips: Seq<SalarySlipResult>) -> Seq<Dec> {
    slips.map_values(|s: SalarySlipResult| s.total_deductions)
}

/// The net pays of the slips.
pub open spec fn net_pays(slips: Seq<SalarySlipResult>) -> Seq<Dec> {
    slips.map_values(|s: SalarySlipResult| s.net_pay)
}

/// Whether `e` posts `debit` and `credit` to `account` under the voucher.
pub open spec fn posts(
    e: GLEntry,
    account: RecordRef,
    debit: Dec,
    credit: Dec,
    voucher_type: Seq<char>,
    voucher_no: Seq<char>,
) -> bool {
    &&& e.account == account
    &&& e.debit == debit
    &&& e.credit == credit
    &&& e.voucher_type@ == voucher_type
    &&& e.voucher_no@ == voucher_no
    &&& e.cost_center is None
}

/// Whether `entries` are the payroll postings of the totals: salary expense
/// debited with the gross, tax payable credited with the deductions, bank
/// credited with the net.
pub open spec fn payroll_entries(
    entries: Seq<GLEntry>,
    totals: (Dec, Dec, Dec),
    bank: RecordRef,
    expense: RecordRef,
    tax: RecordRef,
    voucher_type: Seq<char>,
    voucher_no: Seq<char>,
) -> bool {
    &&& entries.len() == 3
    &&& posts(entries[0], expense, totals.0, Dec::spec_zero(), voucher_type, voucher_no)
    &&& posts(entries[1], tax, Dec::spec_zero(), totals.1, voucher_type, voucher_no)
    &&& posts(entries[2], bank, Dec::spec_zero(), totals.2, voucher_type, voucher_no)
}

/// The ledger's verdict on the postings of the totals.
pub open spec fn payroll_verdict(totals: (Dec, Dec, Dec)) -> Option<Result<(), LedgerError>> {
    balance_verdict(
        seq![totals.0, Dec::spec_zero(), Dec::spec_zero()],
        seq![Dec::spec_zero(), totals.1, totals.2],
    )
}

fn entry(account: RecordRef, debit: Dec, credit: Dec, voucher_type: &str, voucher_no: &str) -> (r: GLEntry)
    ensures
        posts(r, account, debit, credit, voucher_type@, voucher_no@),
{
    GLEntry {
        account,
        debit,
        credit,
        voucher_type: String::from_str(voucher_type),
        voucher_no: String::from_str(voucher_no),
        cost_center: None,
    }
}

/// The postings of a batch of slips: `None` where a total or the balance
/// check overflows; else the three postings, or the ledger's error where they
/// do not balance.  Where the totals are exact and every slip's net pay is
/// exactly its gross pay less its deductions, the postings balance.
pub fn checked_post_payroll_batch(
    slips: &[SalarySlipResult],
    bank_account: RecordRef,
    expense_account: RecordRef,
    tax_account: RecordRef,
    voucher_type: &str,
    voucher_no: &str,
) -> (r: Option<Result<Vec<GLEntry>, PayrollError>>)
    ensures
        batch_totals(slips@) is None ==> r is None,
        batch_totals(slips@) matches Some(t) ==> match r {
            None => payroll_verdict(t) is None,
            Some(Ok(entries)) => payroll_verdict(t) == Some(Ok::<(), LedgerError>(()))
                && payroll_entries(
                entries@,
                t,
                bank_account,
                expense_account,
                tax_account,
                voucher_type@,
                voucher_no@,
            ),
            Some(Err(PayrollError::Ledger(e))) => payroll_verdict(t) == Some(Err::<(), LedgerError>(e)),
            Some(Err(_)) => false,
        },
        (forall|i: int|
            0 <= i < slips@.len() ==> #[trigger] slips@[i].net_pay.units() == slips@[i].gross_pay.units()
                - slips@[i].total_deductions.units()) && sum_fits(gross_pays(slips@)) && sum_fits(
            deduction_totals(slips@),
        ) && sum_fits(net_pays(slips@)) ==> {
            let t = batch_totals(slips@).unwrap();
            &&& batch_totals(slips@) is Some
            &&& sum_fits(seq![Dec::spec_zero(), t.1, t.2]) ==> r matches Some(Ok(_))
        },
        sum_fits(gross_pays(slips@)) && sum_fits(deduction_totals(slips@)) && sum_fits(net_pays(slips@))
            && sum_fits(seq![Dec::spec_zero(), batch_totals(slips@).unwrap().1, batch_totals(slips@).unwrap().2])
            ==> (r matches Some(Ok(_)) <==> exact_sum(gross_pays(slips@), slips@.len()) == exact_sum(
            deduction_totals(slips@),
            slips@.len(),
        ) + exact_sum(net_pays(slips@), slips@.len())),
{
    let ghost gs = gross_pays(slips@);
    let ghost ds = deduction_totals(slips@);
    let ghost ns = net_pays(slips@);
    let mut total_gross: Option<Dec> = Some(Dec::zero());
    let mut total_deductions: Option<Dec> = Some(Dec::zero());
    let mut total_net: Option<Dec> = Some(Dec::zero());
    proof {
        Dec::lemma_zero_units();
    }
    let mut i: usize = 0;
    while i < slips.len()
        invariant
            i <= slips.len(),
            gs == gross_pays(slips@),
            ds == deduction_totals(slips@),
            ns == net_pays(slips@),
            total_gross == sum_prefix(gs, i as nat),
            total_deductions == sum_prefix(ds, i as nat),
            total_net == sum_prefix(ns, i as nat),
            sum_fits(gs) ==> total_gross is Some && total_gross.unwrap().units() == exact_sum(gs, i as nat)
                && total_gross.unwrap().scale_of() <= seq_max_scale(gs),
            sum_fits(ds) ==> total_deductions is Some && total_deductions.unwrap().units() == exact_sum(
                ds,
                i as nat,
            ) && total_deductions.unwrap().scale_of() <= seq_max_scale(ds),
            sum_fits(ns) ==> total_net is Some && total_net.unwrap().units() == exact_sum(ns, i as nat)
                && total_net.unwrap().scale_of() <= seq_max_scale(ns),
        decreases slips.len() - i,
    {
        let slip = &slips[i];
        total_gross = add_to_sum(total_gross, slip.gross_pay, Ghost(gs), Ghost(i as nat));
        total_deductions = add_to_sum(total_deductions, slip.total_deductions, Ghost(ds), Ghost(i as nat));
        total_net = add_to_sum(total_net, slip.net_pay, Ghost(ns), Ghost(i as nat));
        i += 1;
    }
    let (g, d, n) = match (total_gross, total_deductions, total_net) {
        (Some(g), Some(d), Some(n)) => (g, d, n),
        _ => {
            return None;
        },
    };
    let zero = Dec::zero();
    let debit_amounts: Vec<Dec> = vec![g, zero, zero];
    let credit_amounts: Vec<Dec> = vec![zero, d, n];
    proof {
        assert(debit_amounts@ =~= seq![g, Dec::spec_zero(), Dec::spec_zero()]);
        assert(credit_amounts@ =~= seq![Dec::spec_zero(), d, n]);
    }
    let _ = g.scale();
    proof {
        Dec::lemma_zero_units();
        if sum_fits(gs) && sum_fits(ds) && sum_fits(ns) {
            if forall|i: int|
                0 <= i < slips@.len() ==> #[trigger] slips@[i].net_pay.units() == slips@[i].gross_pay.units()
                    - slips@[i].total_deductions.units() {
                lemma_net_sum(slips@, slips@.len());
            }
            g.lemma_fits_own_scale();
            let dv = debit_amounts@;
            let cv = credit_amounts@;
            reveal_with_fuel(exact_sum, 4);
            assert(exact_sum(dv, 3) == g.units());
            assert(exact_sum(cv, 3) == d.units() + n.units());
            assert(seq_max_scale(dv) == g.scale_of()) by {
                reveal_with_fuel(seq_max_scale, 4);
                assert(dv.drop_last().drop_last().drop_last() =~= Seq::<Dec>::empty());
                assert(dv.drop_last().drop_last() =~= seq![g]);
                assert(dv.drop_last() =~= seq![g, Dec::spec_zero()]);
            }
            assert forall|k: nat| k <= dv.len() implies #[trigger] crate::decimal::fits_at_scale(
                exact_sum(dv, k),
                seq_max_scale(dv),
            ) by {
                crate::decimal::lemma_pow10_positive((28 - g.scale_of()) as nat);
            }
        }
    }
    let verdict = check_balance(&debit_amounts, &credit_amounts);
    let entries = vec![
        entry(expense_account, g, zero, voucher_type, voucher_no),
        entry(tax_account, zero, d, voucher_type, voucher_no),
        entry(bank_account, zero, n, voucher_type, voucher_no),
    ];
    match verdict {
        None => None,
        Some(Err(e)) => Some(Err(PayrollError::Ledger(e))),
        Some(Ok(())) => Some(Ok(entries)),
    }
}

/// Posts the double entry of a batch of salary slips: salary expense is
/// debited with the total gross pay, tax payable credited with the total
/// deductions, and the bank credited with the total net pay; the ledger's
/// error where these do not balance.  Where the totals are exact and every
/// slip's net pay is exactly its gross pay less its deductions, they balance;
/// where the sums are exact, they balance exactly when the total gross pay is
/// the total deductions plus the total net pay.
pub fn post_payroll_batch(
    slips: &[SalarySlipResult],
    bank_account: RecordRef,
    expense_account: RecordRef,
    tax_account: RecordRef,
    voucher_type: &str,
    voucher_no: &str,
) -> (r: Result<Vec<GLEntry>, PayrollError>)
    requires
        batch_totals(slips@) matches Some(t) && payroll_verdict(t) is Some,
    ensures
        match r {
            Ok(entries) => payroll_verdict(batch_totals(slips@).unwrap()) == Some(Ok::<(), LedgerError>(()))
                && payroll_entries(
                entries@,
                batch_totals(slips@).unwrap(),
                bank_account,
                expense_account,
                tax_account,
                voucher_type@,
                voucher_no@,
            ),
            Err(PayrollError::Ledger(e)) => payroll_verdict(batch_totals(slips@).unwrap()) == Some(
                Err::<(), LedgerError>(e),
            ),
            Err(_) => false,
        },
        (forall|i: int|
            0 <= i < slips@.len() ==> #[trigger] slips@[i].net_pay.units() == slips@[i].gross_pay.units()
                - slips@[i].total_deductions.units()) && sum_fits(gross_pays(slips@)) && sum_fits(
            deduction_totals(slips@),
        ) && sum_fits(net_pays(slips@)) && sum_fits(
            seq![Dec::spec_zero(), batch_totals(slips@).unwrap().1, batch_totals(slips@).unwrap().2],
        ) ==> r is Ok,
        sum_fits(gross_pays(slips@)) && sum_fits(deduction_totals(slips@)) && sum_fits(net_pays(slips@))
            && sum_fits(seq![Dec::spec_zero(), batch_totals(slips@).unwrap().1, batch_totals(slips@).unwrap().2])
            ==> (r is Ok <==> exact_sum(gross_pays(slips@), slips@.len()) == exact_sum(
            deduction_totals(slips@),
            slips@.len(),
        ) + exact_sum(net_pays(slips@), slips@.len())),
{
    checked_post_payroll_batch(slips, bank_account, expense_account, tax_account, voucher_type, voucher_no).unwrap()
}

} // verus!
