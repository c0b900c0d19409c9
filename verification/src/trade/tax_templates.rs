//! Document totals: net totals after pricing rules, item-wise and compound
//! taxes, and the same amounts converted to the company currency.
use vstd::prelude::*;
use crate::decimal::{
    Dec, add_to_sum, decimal_add, decimal_div, decimal_mul, exact_sum, fits_at_scale, lemma_sum_push, max_nat,
    mul_exact, o_add, o_div, o_mul, pow10, seq_max_scale, sum_fits, sum_prefix,
};
use crate::maps::DecimalMap;
use crate::time::Timestamp;
use crate::trade::pricing_rules::{
    LineItem, PricingRule, checked_evaluate_pricing_rules, opt_chars, pricing_rate,
};

verus! {

/// How the amount of a tax row is computed.
#[derive(Clone, Copy, Debug, PartialEq, Eq, Structural)]
pub enum TaxChargeType {
    /// The rate itself is the amount.
    Actual,
    /// A percentage of each item's net amount, scaled up by the compound taxes before it.
    OnNetTotal,
    /// A percentage of the previous row's amount.
    OnPreviousRowAmount,
}

/// A tax row of a template.  `item_wise_rates` overrides the rate by item id,
/// then by item group.
#[derive(Clone, Debug)]
pub struct TaxRowTemplate {
    pub title: String,
    pub charge_type: TaxChargeType,
    pub rate_percentage: Dec,
    pub compound: bool,
    pub item_wise_rates: DecimalMap,
}

/// The currencies of a document and the rate that converts the first to the second.
#[derive(Clone, Debug)]
pub struct CurrencyContext {
    pub transaction_currency: String,
    pub company_currency: String,
    pub exchange_rate: Dec,
}

/// A computed tax row.
#[derive(Clone, Debug)]
pub struct TaxRow {
    pub title: String,
    pub tax_rate: Dec,
    pub tax_amount: Dec,
    pub base_tax_amount: Dec,
}

/// The totals of a document, in its own currency and in the company's.
#[derive(Clone, Debug)]
pub struct DocumentTotals {
    pub net_total: Dec,
    pub total_taxes: Dec,
    pub grand_total: Dec,
    pub base_net_total: Dec,
    pub base_total_taxes: Dec,
    pub base_grand_total: Dec,
    pub taxes: Vec<TaxRow>,
}

/// The net amounts `qty * rate` of the first `n` items, each at its rate after
/// the pricing rules (`None` where an operation overflows).
pub open spec fn item_nets(
    items: Seq<LineItem>,
    customer_class: Option<Seq<char>>,
    date: Option<Timestamp>,
    pricing: Seq<PricingRule>,
    n: nat,
) -> Option<Seq<Dec>>
    decreases n,
{
    if n == 0 {
        Some(Seq::empty())
    } else {
        let net = o_mul(
            Some(items[n - 1].qty),
            pricing_rate(items[n - 1], customer_class, date, pricing),
        );
        match (item_nets(items, customer_class, date, pricing, (n - 1) as nat), net) {
            (Some(s), Some(x)) => Some(s.push(x)),
            _ => None,
        }
    }
}

/// The rate of `template` for `item`: by item id, else by item group, else the row's rate.
pub open spec fn rate_for_item(template: TaxRowTemplate, item: LineItem) -> Dec {
    match template.item_wise_rates.spec_get(item.id@) {
        Some(r) => r,
        None => match template.item_wise_rates.spec_get(item.item_group@) {
            Some(r) => r,
            None => template.rate_percentage,
        },
    }
}

/// The sum over the first `n` items of `net * factor * (rate / 100)`.
pub open spec fn on_net_total_amount(
    template: TaxRowTemplate,
    items: Seq<LineItem>,
    nets: Seq<Dec>,
    factor: Dec,
    n: nat,
) -> Option<Dec>
    decreases n,
{
    if n == 0 {
        Some(Dec::spec_zero())
    } else {
        o_add(
            on_net_total_amount(template, items, nets, factor, (n - 1) as nat),
            o_mul(
                o_mul(Some(nets[n - 1]), Some(factor)),
                o_div(Some(rate_for_item(template, items[n - 1])), Some(Dec::spec_new(100, 0))),
            ),
        )
    }
}

/// The factor by which the compound taxes so far have raised the taxable base.
pub open spec fn compounding_factor(running_base: Dec, net_total: Dec) -> Option<Dec> {
    if net_total.is_zero_value() {
        Some(Dec::spec_one())
    } else {
        decimal_div(running_base, net_total)
    }
}

/// The amount of a tax row.
pub open spec fn row_amount(
    template: TaxRowTemplate,
    items: Seq<LineItem>,
    nets: Seq<Dec>,
    net_total: Dec,
    running_base: Dec,
    previous: Dec,
) -> Option<Dec> {
    match template.charge_type {
        TaxChargeType::OnNetTotal => match compounding_factor(running_base, net_total) {
            Some(f) => on_net_total_amount(template, items, nets, f, items.len()),
            None => None,
        },
        TaxChargeType::OnPreviousRowAmount => o_mul(
            Some(previous),
            o_div(Some(template.rate_percentage), Some(Dec::spec_new(100, 0))),
        ),
        TaxChargeType::Actual => Some(template.rate_percentage),
    }
}

/// The state after the first `n` tax rows: the running taxable base, the
/// total of the taxes, the previous row's amount and the rows.
pub open spec fn tax_state(
    templates: Seq<TaxRowTemplate>,
    items: Seq<LineItem>,
    nets: Seq<Dec>,
    net_total: Dec,
    exchange_rate: Dec,
    n: nat,
) -> Option<(Dec, Dec, Dec, Seq<TaxRow>)>
    decreases n,
{
    if n == 0 {
        Some((net_total, Dec::spec_zero(), Dec::spec_zero(), Seq::empty()))
    } else {
        let t = templates[n - 1];
        match tax_state(templates, items, nets, net_total, exchange_rate, (n - 1) as nat) {
            None => None,
            Some((running, total, previous, rows)) => match row_amount(
                t,
                items,
                nets,
                net_total,
                running,
                previous,
            ) {
                None => None,
                Some(row) => {
                    let running2 = if t.compound {
                        decimal_add(running, row)
                    } else {
                        Some(running)
                    };
                    match (decimal_add(total, row), decimal_mul(row, exchange_rate), running2) {
                        (Some(total2), Some(base), Some(r2)) => Some(
                            (
                                r2,
                                total2,
                                row,
                                rows.push(
                                    TaxRow {
                                        title: t.title,
                                        tax_rate: t.rate_percentage,
                                        tax_amount: row,
                                        base_tax_amount: base,
                                    },
                                ),
                            ),
                        ),
                        _ => None,
                    }
                },
            },
        }
    }
}

/// The totals of a document: `(net, taxes, grand, base net, base taxes, base grand, rows)`.
pub open spec fn document_totals(
    items: Seq<LineItem>,
    templates: Seq<TaxRowTemplate>,
    pricing: Seq<PricingRule>,
    ctx: CurrencyContext,
    customer_class: Option<Seq<char>>,
    date: Option<Timestamp>,
) -> Option<(Dec, Dec, Dec, Dec, Dec, Dec, Seq<TaxRow>)> {
    match item_nets(items, customer_class, date, pricing, items.len()) {
        None => None,
        Some(nets) => match sum_prefix(nets, nets.len()) {
            None => None,
            Some(net) => match tax_state(
                templates,
                items,
                nets,
                net,
                ctx.exchange_rate,
                templates.len(),
            ) {
                None => None,
                Some((_, total, _, rows)) => match decimal_add(net, total) {
                    None => None,
                    Some(grand) => match (
                        decimal_mul(net, ctx.exchange_rate),
                        decimal_mul(total, ctx.exchange_rate),
                        decimal_mul(grand, ctx.exchange_rate),
                    ) {
                        (Some(a), Some(b), Some(c)) => Some((net, total, grand, a, b, c, rows)),
                        _ => None,
                    },
                },
            },
        },
    }
}

/// Whether `c` is exactly the product `a * b`.
pub open spec fn exact_product(c: Dec, a: Dec, b: Dec) -> bool {
    c.units() * pow10(28) == a.units() * b.units()
}

/// The tax amounts of the rows, in order.
pub open spec fn tax_amounts(rows: Seq<TaxRow>) -> Seq<Dec> {
    rows.map_values(|r: TaxRow| r.tax_amount)
}

/// The rate of the item at `i` after the pricing rules.
pub open spec fn item_rate(
    items: Seq<LineItem>,
    customer_class: Option<Seq<char>>,
    date: Option<Timestamp>,
    pricing: Seq<PricingRule>,
    i: int,
) -> Dec {
    pricing_rate(items[i], customer_class, date, pricing).unwrap()
}

/// The sums of the document where its arithmetic is exact: each item's net
/// is its quantity times its rate; the net total is the sum of the nets; the
/// total taxes the sum of the rows' amounts; the grand total the net total
/// plus the taxes; each amount in the company currency is the amount times
/// the exchange rate.
pub open spec fn totals_add_up(
    t: DocumentTotals,
    items: Seq<LineItem>,
    templates: Seq<TaxRowTemplate>,
    pricing: Seq<PricingRule>,
    ctx: CurrencyContext,
    customer_class: Option<Seq<char>>,
    date: Option<Timestamp>,
) -> bool {
    let nets = item_nets(items, customer_class, date, pricing, items.len()).unwrap();
    let x = ctx.exchange_rate;
    &&& nets.len() == items.len()
    &&& forall|i: int|
        0 <= i < items.len() && mul_exact(items[i].qty, item_rate(items, customer_class, date, pricing, i))
            ==> exact_product(#[trigger] nets[i], items[i].qty, item_rate(items, customer_class, date, pricing, i))
    &&& sum_fits(nets) ==> t.net_total.units() == exact_sum(nets, nets.len())
    &&& t.taxes@.len() == templates.len()
    &&& sum_fits(tax_amounts(t.taxes@)) ==> t.total_taxes.units() == exact_sum(
        tax_amounts(t.taxes@),
        t.taxes@.len(),
    )
    &&& fits_at_scale(
        t.net_total.units() + t.total_taxes.units(),
        max_nat(t.net_total.scale_of(), t.total_taxes.scale_of()),
    ) ==> t.grand_total.units() == t.net_total.units() + t.total_taxes.units()
    &&& mul_exact(t.net_total, x) ==> exact_product(t.base_net_total, t.net_total, x)
    &&& mul_exact(t.total_taxes, x) ==> exact_product(t.base_total_taxes, t.total_taxes, x)
    &&& mul_exact(t.grand_total, x) ==> exact_product(t.base_grand_total, t.grand_total, x)
    &&& forall|i: int|
        0 <= i < t.taxes@.len() && mul_exact(t.taxes@[i].tax_amount, x) ==> exact_product(
            #[trigger] t.taxes@[i].base_tax_amount,
            t.taxes@[i].tax_amount,
            x,
        )
}

/// Whether `t` holds the totals `v`.
pub open spec fn totals_are(t: DocumentTotals, v: (Dec, Dec, Dec, Dec, Dec, Dec, Seq<TaxRow>)) -> bool {
    &&& t.net_total == v.0
    &&& t.total_taxes == v.1
    &&& t.grand_total == v.2
    &&& t.base_net_total == v.3
    &&& t.base_total_taxes == v.4
    &&& t.base_grand_total == v.5
    &&& t.taxes@ == v.6
}

/// The rate a row uses for an item is the item-wise rate set for the item's
/// id where there is one; else the rate set for its item group where there
/// is one; else the row's own rate.  So an item whose group has a rate and
/// whose id has none is taxed at its group's rate.
pub proof fn lemma_item_rate_precedence(template: TaxRowTemplate, item: LineItem)
    ensures
        template.item_wise_rates.spec_get(item.id@) matches Some(x) ==> rate_for_item(template, item) == x,
        template.item_wise_rates.spec_get(item.id@) is None ==> (template.item_wise_rates.spec_get(
            item.item_group@,
        ) matches Some(g) ==> rate_for_item(template, item) == g),
        template.item_wise_rates.spec_get(item.id@) is None && template.item_wise_rates.spec_get(
            item.item_group@,
        ) is None ==> rate_for_item(template, item) == template.rate_percentage,
{
}

/// The rate of `template` for `item`.
fn rate_for_item_exec(template: &TaxRowTemplate, item: &LineItem) -> (r: Dec)
    ensures
        r == rate_for_item(*template, *item),
        template.item_wise_rates.spec_get(item.id@) matches Some(x) ==> r == x,
        template.item_wise_rates.spec_get(item.id@) is None ==> (template.item_wise_rates.spec_get(
            item.item_group@,
        ) matches Some(g) ==> r == g),
        template.item_wise_rates.spec_get(item.id@) is None && template.item_wise_rates.spec_get(
            item.item_group@,
        ) is None ==> r == template.rate_percentage,
{
    match template.item_wise_rates.get(item.id.as_str()) {
        Some(r) => r,
        None => match template.item_wise_rates.get(item.item_group.as_str()) {
            Some(r) => r,
            None => template.rate_percentage,
        },
    }
}

/// The amount of an on-net-total row.
fn on_net_total_exec(
    template: &TaxRowTemplate,
    items: &[LineItem],
    nets: &Vec<Dec>,
    factor: Dec,
) -> (r: Option<Dec>)
    requires
        nets.len() == items.len(),
    ensures
        r == on_net_total_amount(*template, items@, nets@, factor, items@.len()),
{
    let hundred = Dec::new(100, 0);
    let mut acc: Option<Dec> = Some(Dec::zero());
    let mut k: usize = 0;
    while k < items.len()
        invariant
            k <= items.len(),
            nets.len() == items.len(),
            hundred == Dec::spec_new(100, 0),
            acc == on_net_total_amount(*template, items@, nets@, factor, k as nat),
        decreases items.len() - k,
    {
        let rate = rate_for_item_exec(template, &items[k]);
        let item_base = nets[k].checked_mul(&factor);
        let portion = mul_opt_local(item_base, rate.checked_div(&hundred));
        acc = crate::decimal::add_opt(acc, portion);
        k += 1;
    }
    acc
}

fn mul_opt_local(a: Option<Dec>, b: Option<Dec>) -> (r: Option<Dec>)
    ensures
        r == o_mul(a, b),
{
    crate::decimal::mul_opt(a, b)
}

/// The amount of a tax row.
fn row_amount_exec(
    template: &TaxRowTemplate,
    items: &[LineItem],
    nets: &Vec<Dec>,
    net_total: Dec,
    running_base: Dec,
    previous: Dec,
) -> (r: Option<Dec>)
    requires
        nets.len() == items.len(),
    ensures
        r == row_amount(*template, items@, nets@, net_total, running_base, previous),
{
    match template.charge_type {
        TaxChargeType::OnNetTotal => {
            let factor = if net_total.is_zero() {
                Some(Dec::one())
            } else {
                running_base.checked_div(&net_total)
            };
            match factor {
                Some(f) => on_net_total_exec(template, items, nets, f),
                None => None,
            }
        },
        TaxChargeType::OnPreviousRowAmount => {
            let fraction = template.rate_percentage.checked_div(&Dec::new(100, 0));
            mul_opt_local(Some(previous), fraction)
        },
        TaxChargeType::Actual => Some(template.rate_percentage),
    }
}

/// The state and rows together.
pub open spec fn with_rows(st: Option<(Dec, Dec, Dec)>, rows: Seq<TaxRow>) -> Option<
    (Dec, Dec, Dec, Seq<TaxRow>),
> {
    match st {
        Some((a, b, c)) => Some((a, b, c, rows)),
        None => None,
    }
}

/// Computes net totals, item-wise and compound taxes and the amounts in the
/// company currency; `None` where a decimal operation overflows.
pub fn checked_calculate_document_totals(
    items: &[LineItem],
    taxes: &[TaxRowTemplate],
    pricing: &[PricingRule],
    currency_ctx: &CurrencyContext,
    customer_class: Option<&str>,
    transaction_date: Option<Timestamp>,
) -> (r: Option<DocumentTotals>)
    ensures
        r is Some <==> document_totals(
            items@,
            taxes@,
            pricing@,
            *currency_ctx,
            opt_chars(customer_class),
            transaction_date,
        ) is Some,
        r matches Some(t) ==> totals_are(
            t,
            document_totals(
                items@,
                taxes@,
                pricing@,
                *currency_ctx,
                opt_chars(customer_class),
                transaction_date,
            ).unwrap(),
        ),
        r matches Some(t) ==> totals_add_up(
            t,
            items@,
            taxes@,
            pricing@,
            *currency_ctx,
            opt_chars(customer_class),
            transaction_date,
        ),
{
    let ghost class = opt_chars(customer_class);
    // 1. The net amount of each item after the pricing rules.
    let mut nets: Vec<Dec> = Vec::new();
    let mut ok = true;
    let mut i: usize = 0;
    while i < items.len()
        invariant
            i <= items.len(),
            class == opt_chars(customer_class),
            ok ==> item_nets(items@, class, transaction_date, pricing@, i as nat) == Some(nets@),
            !ok ==> item_nets(items@, class, transaction_date, pricing@, i as nat) is None,
            ok ==> nets.len() == i,
            ok ==> forall|k: int|
                0 <= k < nets.len() && mul_exact(items@[k].qty, item_rate(items@, class, transaction_date, pricing@, k))
                    ==> exact_product(
                    #[trigger] nets@[k],
                    items@[k].qty,
                    item_rate(items@, class, transaction_date, pricing@, k),
                ),
        decreases items.len() - i,
    {
        if ok {
            let rate = checked_evaluate_pricing_rules(
                &items[i],
                customer_class,
                transaction_date,
                pricing,
            );
            let product = match rate {
                Some(rt) => items[i].qty.checked_mul(&rt),
                None => None,
            };
            match product {
                Some(net) => {
                    let ghost before = nets@;
                    nets.push(net);
                    proof {
                        assert forall|k: int|
                            0 <= k < nets.len() && mul_exact(
                                items@[k].qty,
                                item_rate(items@, class, transaction_date, pricing@, k),
                            ) implies exact_product(
                            #[trigger] nets@[k],
                            items@[k].qty,
                            item_rate(items@, class, transaction_date, pricing@, k),
                        ) by {
                            if k < i {
                                assert(nets@[k] == before[k]);
                            }
                        }
                    }
                },
                None => {
                    ok = false;
                },
            }
        }
        i += 1;
    }
    if !ok {
        return None;
    }
    // 2. Their sum.
    let mut net_acc: Option<Dec> = Some(Dec::zero());
    proof {
        Dec::lemma_zero_units();
    }
    let mut j: usize = 0;
    while j < nets.len()
        invariant
            j <= nets.len(),
            net_acc == sum_prefix(nets@, j as nat),
            sum_fits(nets@) ==> net_acc is Some && net_acc.unwrap().units() == exact_sum(nets@, j as nat)
                && net_acc.unwrap().scale_of() <= seq_max_scale(nets@),
        decreases nets.len() - j,
    {
        net_acc = add_to_sum(net_acc, nets[j], Ghost(nets@), Ghost(j as nat));
        j += 1;
    }
    let net_total = match net_acc {
        Some(n) => n,
        None => {
            return None;
        },
    };
    // 3. The tax rows in order.
    let exchange_rate = currency_ctx.exchange_rate;
    let mut st: Option<(Dec, Dec, Dec)> = Some((net_total, Dec::zero(), Dec::zero()));
    let mut rows: Vec<TaxRow> = Vec::new();
    let mut t: usize = 0;
    while t < taxes.len()
        invariant
            t <= taxes.len(),
            nets.len() == items.len(),
            exchange_rate == currency_ctx.exchange_rate,
            with_rows(st, rows@) == tax_state(
                taxes@,
                items@,
                nets@,
                net_total,
                exchange_rate,
                t as nat,
            ),
            st is Some ==> rows@.len() == t,
            st matches Some((_, total, _)) ==> (sum_fits(tax_amounts(rows@)) ==> total.units() == exact_sum(
                tax_amounts(rows@),
                rows@.len(),
            ) && total.scale_of() <= seq_max_scale(tax_amounts(rows@))),
            forall|k: int|
                0 <= k < rows@.len() && mul_exact(rows@[k].tax_amount, exchange_rate) ==> exact_product(
                    #[trigger] rows@[k].base_tax_amount,
                    rows@[k].tax_amount,
                    exchange_rate,
                ),
        decreases taxes.len() - t,
    {
        if let Some((running, total, previous)) = st {
            let template = &taxes[t];
            match row_amount_exec(template, items, &nets, net_total, running, previous) {
                None => {
                    st = None;
                },
                Some(row) => {
                    let running2 = if template.compound {
                        running.checked_add(&row)
                    } else {
                        Some(running)
                    };
                    let ghost before = rows@;
                    proof {
                        let amts = tax_amounts(before);
                        lemma_sum_push(amts, row);
                        if sum_fits(amts.push(row)) {
                            crate::decimal::lemma_seq_max_scale(amts.push(row));
                            assert(amts.push(row)[amts.len() as int] == row);
                            assert(fits_at_scale(exact_sum(amts.push(row), amts.len() + 1), seq_max_scale(amts.push(row))));
                            crate::decimal::lemma_fits_smaller_scale(
                                total.units() + row.units(),
                                max_nat(total.scale_of(), row.scale_of()),
                                seq_max_scale(amts.push(row)),
                            );
                        }
                    }
                    match (total.checked_add(&row), row.checked_mul(&exchange_rate), running2) {
                        (Some(total2), Some(base), Some(r2)) => {
                            rows.push(
                                TaxRow {
                                    title: template.title.clone(),
                                    tax_rate: template.rate_percentage,
                                    tax_amount: row,
                                    base_tax_amount: base,
                                },
                            );
                            proof {
                                assert(tax_amounts(rows@) =~= tax_amounts(before).push(row));
                                assert forall|k: int|
                                    0 <= k < rows@.len() && mul_exact(rows@[k].tax_amount, exchange_rate)
                                        implies exact_product(
                                    #[trigger] rows@[k].base_tax_amount,
                                    rows@[k].tax_amount,
                                    exchange_rate,
                                ) by {
                                    if k < before.len() {
                                        assert(rows@[k] == before[k]);
                                    }
                                }
                            }
                            st = Some((r2, total2, row));
                        },
                        _ => {
                            st = None;
                        },
                    }
                },
            }
        }
        t += 1;
    }
    let (total_taxes, _) = match st {
        Some((_, total, previous)) => (total, previous),
        None => {
            return None;
        },
    };
    let grand_total = match net_total.checked_add(&total_taxes) {
        Some(g) => g,
        None => {
            return None;
        },
    };
    match (
        net_total.checked_mul(&exchange_rate),
        total_taxes.checked_mul(&exchange_rate),
        grand_total.checked_mul(&exchange_rate),
    ) {
        (Some(a), Some(b), Some(c)) => Some(
            DocumentTotals {
                net_total,
                total_taxes,
                grand_total,
                base_net_total: a,
                base_total_taxes: b,
                base_grand_total: c,
                taxes: rows,
            },
        ),
        _ => None,
    }
}

/// Computes net totals, item-wise and compound taxes, and multi-currency
/// conversions; where the arithmetic is exact the totals add up
/// (`totals_add_up`).
pub fn calculate_document_totals(
    items: &[LineItem],
    taxes: &[TaxRowTemplate],
    pricing: &[PricingRule],
    currency_ctx: &CurrencyContext,
    customer_class: Option<&str>,
    transaction_date: Option<Timestamp>,
) -> (r: DocumentTotals)
    requires
        document_totals(
            items@,
            taxes@,
            pricing@,
            *currency_ctx,
            opt_chars(customer_class),
            transaction_date,
        ) is Some,
    ensures
        totals_are(
            r,
            document_totals(
                items@,
                taxes@,
                pricing@,
                *currency_ctx,
                opt_chars(customer_class),
                transaction_date,
            ).unwrap(),
        ),
        totals_add_up(r, items@, taxes@, pricing@, *currency_ctx, opt_chars(customer_class), transaction_date),
{
    checked_calculate_document_totals(
        items,
        taxes,
        pricing,
        currency_ctx,
        customer_class,
        transaction_date,
    ).unwrap()
}

proof fn lemma_tax_rows_follow_templates(
    templates: Seq<TaxRowTemplate>,
    items: Seq<LineItem>,
    nets: Seq<Dec>,
    net_total: Dec,
    exchange_rate: Dec,
    n: nat,
)
    requires
        n <= templates.len(),
    ensures
        tax_state(templates, items, nets, net_total, exchange_rate, n) matches Some((_, _, _, rows)) ==> {
            &&& rows.len() == n
            &&& forall|i: int|
                0 <= i < n ==> #[trigger] rows[i].title == templates[i].title && rows[i].tax_rate
                    == templates[i].rate_percentage
        },
    decreases n,
{
    if n > 0 {
        lemma_tax_rows_follow_templates(templates, items, nets, net_total, exchange_rate, (n - 1) as nat);
    }
}

/// A document has one tax row per tax template, in the templates' order,
/// each with its template's title and rate; its grand total is its net total
/// plus its total taxes.
pub proof fn lemma_one_row_per_template(
    items: Seq<LineItem>,
    templates: Seq<TaxRowTemplate>,
    pricing: Seq<PricingRule>,
    ctx: CurrencyContext,
    customer_class: Option<Seq<char>>,
    date: Option<Timestamp>,
)
    ensures
        document_totals(items, templates, pricing, ctx, customer_class, date) matches Some(t) ==> {
            &&& t.6.len() == templates.len()
            &&& forall|i: int|
                0 <= i < templates.len() ==> #[trigger] t.6[i].title == templates[i].title
                    && t.6[i].tax_rate == templates[i].rate_percentage
            &&& decimal_add(t.0, t.1) == Some(t.2)
        },
{
    if let Some(nets) = item_nets(items, customer_class, date, pricing, items.len()) {
        if let Some(net) = sum_prefix(nets, nets.len()) {
            lemma_tax_rows_follow_templates(
                templates,
                items,
                nets,
                net,
                ctx.exchange_rate,
                templates.len(),
            );
        }
    }
}

} // verus!
