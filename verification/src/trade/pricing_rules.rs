//! Customer pricing rules: discounts that apply to a line item by item,
//! item group, customer class, quantity band and validity window.
use vstd::prelude::*;
use crate::decimal::{Dec, o_div, o_mul, o_sub, mul_opt, sub_opt};
use crate::text::str_eq;
use crate::time::{Timestamp, ts_before};

verus! {

/// A pricing rule.  Each `Some` criterion must match for the rule to apply.
#[derive(Clone, Debug)]
pub struct PricingRule {
    pub id: String,
    pub item_code: Option<String>,
    pub item_group: Option<String>,
    pub customer_class: Option<String>,
    pub min_qty: Dec,
    pub max_qty: Option<Dec>,
    pub valid_from: Option<Timestamp>,
    pub valid_upto: Option<Timestamp>,
    pub discount_percentage: Dec,
    pub discount_amount: Dec,
}

/// A line of a trade document.
#[derive(Clone, Debug)]
pub struct LineItem {
    pub id: String,
    pub item_group: String,
    pub qty: Dec,
    pub base_rate: Dec,
}

/// The characters of an optional string.
pub open spec fn opt_chars(s: Option<&str>) -> Option<Seq<char>> {
    match s {
        Some(x) => Some(x@),
        None => None,
    }
}

/// Whether `rule` applies to `item` for a customer of class `customer_class`
/// on `date`.  A missing transaction date passes both validity bounds.
pub open spec fn rule_applies(
    item: LineItem,
    customer_class: Option<Seq<char>>,
    date: Option<Timestamp>,
    rule: PricingRule,
) -> bool {
    &&& (rule.item_code matches Some(c) ==> c@ == item.id@)
    &&& (rule.item_group matches Some(g) ==> g@ == item.item_group@)
    &&& (rule.customer_class matches Some(c) ==> customer_class == Some(c@))
    &&& rule.min_qty.units() <= item.qty.units()
    &&& (rule.max_qty matches Some(m) ==> item.qty.units() <= m.units())
    &&& (rule.valid_from matches Some(f) ==> (date matches Some(d) ==> !ts_before(d, f)))
    &&& (rule.valid_upto matches Some(u) ==> (date matches Some(d) ==> !ts_before(u, d)))
}

/// The rate after the discounts of an applying rule: first the percentage
/// (`rate - rate * (pct / 100)`), then the flat amount, each only where positive.
pub open spec fn apply_discounts(rate: Option<Dec>, rule: PricingRule) -> Option<Dec> {
    let after_pct = if rule.discount_percentage.units() > 0 {
        o_sub(
            rate,
            o_mul(rate, o_div(Some(rule.discount_percentage), Some(Dec::spec_new(100, 0)))),
        )
    } else {
        rate
    };
    if rule.discount_amount.units() > 0 {
        o_sub(after_pct, Some(rule.discount_amount))
    } else {
        after_pct
    }
}

/// The rate after the rules of `rules`, in order (`None` where a decimal
/// operation overflows).
pub open spec fn discounted_rate(
    item: LineItem,
    customer_class: Option<Seq<char>>,
    date: Option<Timestamp>,
    rules: Seq<PricingRule>,
) -> Option<Dec>
    decreases rules.len(),
{
    if rules.len() == 0 {
        Some(item.base_rate)
    } else {
        let prev = discounted_rate(item, customer_class, date, rules.drop_last());
        if rule_applies(item, customer_class, date, rules.last()) {
            apply_discounts(prev, rules.last())
        } else {
            prev
        }
    }
}

/// A rate with a negative sign becomes zero.
pub open spec fn clamp_negative(rate: Option<Dec>) -> Option<Dec> {
    match rate {
        Some(r) => if r.is_neg() {
            Some(Dec::spec_zero())
        } else {
            Some(r)
        },
        None => None,
    }
}

/// The final rate of `item` under `rules`.
pub open spec fn pricing_rate(
    item: LineItem,
    customer_class: Option<Seq<char>>,
    date: Option<Timestamp>,
    rules: Seq<PricingRule>,
) -> Option<Dec> {
    clamp_negative(discounted_rate(item, customer_class, date, rules))
}

/// Whether a criterion of `rule` rules it out for `item`, a customer of
/// class `customer_class` and the transaction date `date`: another item
/// code, another item group, another (or no) customer class, a quantity
/// below the minimum or above the maximum, a date before the rule is valid
/// from or after it is valid until.
pub open spec fn rule_excluded(
    item: LineItem,
    customer_class: Option<Seq<char>>,
    date: Option<Timestamp>,
    rule: PricingRule,
) -> bool {
    ||| (rule.item_code is Some && rule.item_code.unwrap()@ != item.id@)
    ||| (rule.item_group is Some && rule.item_group.unwrap()@ != item.item_group@)
    ||| (rule.customer_class is Some && customer_class != Some(rule.customer_class.unwrap()@))
    ||| item.qty.units() < rule.min_qty.units()
    ||| (rule.max_qty is Some && rule.max_qty.unwrap().units() < item.qty.units())
    ||| (rule.valid_from is Some && date is Some && ts_before(date.unwrap(), rule.valid_from.unwrap()))
    ||| (rule.valid_upto is Some && date is Some && ts_before(rule.valid_upto.unwrap(), date.unwrap()))
}

/// A rule that one of its criteria rules out — in particular one not yet
/// valid on the transaction date, or no longer valid — leaves the rate as it
/// was; one that none rules out applies its discounts.
pub proof fn lemma_excluded_rule_keeps_rate(
    item: LineItem,
    customer_class: Option<Seq<char>>,
    date: Option<Timestamp>,
    rules: Seq<PricingRule>,
    rule: PricingRule,
)
    ensures
        rule_excluded(item, customer_class, date, rule) ==> discounted_rate(
            item,
            customer_class,
            date,
            rules.push(rule),
        ) == discounted_rate(item, customer_class, date, rules),
        !rule_excluded(item, customer_class, date, rule) ==> discounted_rate(
            item,
            customer_class,
            date,
            rules.push(rule),
        ) == apply_discounts(discounted_rate(item, customer_class, date, rules), rule),
{
    assert(rules.push(rule).drop_last() =~= rules);
}

fn rule_applies_exec(
    item: &LineItem,
    customer_class: Option<&str>,
    date: Option<Timestamp>,
    rule: &PricingRule,
) -> (r: bool)
    ensures
        r == rule_applies(*item, opt_chars(customer_class), date, *rule),
        r <==> !rule_excluded(*item, opt_chars(customer_class), date, *rule),
{
    if let Some(code) = &rule.item_code {
        if !str_eq(code.as_str(), item.id.as_str()) {
            return false;
        }
    }
    if let Some(group) = &rule.item_group {
        if !str_eq(group.as_str(), item.item_group.as_str()) {
            return false;
        }
    }
    if let Some(class) = &rule.customer_class {
        match customer_class {
            Some(c) => {
                if !str_eq(class.as_str(), c) {
                    return false;
                }
            },
            None => {
                return false;
            },
        }
    }
    if item.qty.lt(&rule.min_qty) {
        return false;
    }
    if let Some(max_qty) = &rule.max_qty {
        if max_qty.lt(&item.qty) {
            return false;
        }
    }
    if let Some(valid_from) = &rule.valid_from {
        if let Some(d) = &date {
            if d.before(valid_from) {
                return false;
            }
        }
    }
    if let Some(valid_upto) = &rule.valid_upto {
        if let Some(d) = &date {
            if valid_upto.before(d) {
                return false;
            }
        }
    }
    true
}

fn apply_discounts_exec(rate: Option<Dec>, rule: &PricingRule) -> (r: Option<Dec>)
    ensures
        r == apply_discounts(rate, *rule),
{
    let zero = Dec::zero();
    let mut current = rate;
    if zero.lt(&rule.discount_percentage) {
        let fraction = rule.discount_percentage.checked_div(&Dec::new(100, 0));
        let discount = mul_opt(current, fraction);
        current = sub_opt(current, discount);
    }
    if zero.lt(&rule.discount_amount) {
        current = sub_opt(current, Some(rule.discount_amount));
    }
    current
}

/// The rate of `item` after the applying rules of `rules` in order, never
/// negative; `None` where a decimal operation overflows.
pub fn checked_evaluate_pricing_rules(
    item: &LineItem,
    customer_class: Option<&str>,
    transaction_date: Option<Timestamp>,
    rules: &[PricingRule],
) -> (r: Option<Dec>)
    ensures
        r == pricing_rate(*item, opt_chars(customer_class), transaction_date, rules@),
        r matches Some(x) ==> !x.is_neg() && x.units() >= 0,
{
    let mut current: Option<Dec> = Some(item.base_rate);
    let mut i: usize = 0;
    while i < rules.len()
        invariant
            i <= rules.len(),
            current == discounted_rate(
                *item,
                opt_chars(customer_class),
                transaction_date,
                rules@.take(i as int),
            ),
        decreases rules.len() - i,
    {
        proof {
            assert(rules@.take(i + 1).drop_last() == rules@.take(i as int));
        }
        if rule_applies_exec(item, customer_class, transaction_date, &rules[i]) {
            current = apply_discounts_exec(current, &rules[i]);
        }
        i += 1;
    }
    proof {
        assert(rules@.take(rules.len() as int) == rules@);
    }
    match current {
        Some(rate) => {
            if rate.is_sign_negative() {
                let z = Dec::zero();
                proof {
                    z.lemma_bounds();
                }
                Some(z)
            } else {
                proof {
                    rate.lemma_bounds();
                }
                Some(rate)
            }
        },
        None => None,
    }
}

/// Evaluates a list of pricing rules against a line item: the base rate, less
/// the percentage and flat discounts of every rule that applies, in order; a
/// negative result becomes zero.
pub fn evaluate_pricing_rules(
    item: &LineItem,
    customer_class: Option<&str>,
    transaction_date: Option<Timestamp>,
    rules: &[PricingRule],
) -> (r: Dec)
    requires
        pricing_rate(*item, opt_chars(customer_class), transaction_date, rules@) is Some,
    ensures
        Some(r) == pricing_rate(*item, opt_chars(customer_class), transaction_date, rules@),
        !r.is_neg(),
{
    checked_evaluate_pricing_rules(item, customer_class, transaction_date, rules).unwrap()
}

/// Rules that do not apply change nothing: where no rule applies to the item,
/// the discounted rate is its base rate.
pub proof fn lemma_inapplicable_rules_keep_base_rate(
    item: LineItem,
    customer_class: Option<Seq<char>>,
    date: Option<Timestamp>,
    rules: Seq<PricingRule>,
)
    requires
        forall|i: int| 0 <= i < rules.len() ==> !#[trigger] rule_applies(item, customer_class, date, rules[i]),
    ensures
        discounted_rate(item, customer_class, date, rules) == Some(item.base_rate),
        pricing_rate(item, customer_class, date, rules) == clamp_negative(Some(item.base_rate)),
    decreases rules.len(),
{
    if rules.len() > 0 {
        assert forall|i: int| 0 <= i < rules.drop_last().len() implies !#[trigger] rule_applies(
            item,
            customer_class,
            date,
            rules.drop_last()[i],
        ) by {
            assert(rules.drop_last()[i] == rules[i]);
        }
        assert(!rule_applies(item, customer_class, date, rules[rules.len() - 1]));
        lemma_inapplicable_rules_keep_base_rate(item, customer_class, date, rules.drop_last());
    }
}

/// A rule without a positive percentage or amount changes no rate.
pub proof fn lemma_rule_without_discount_is_neutral(rate: Option<Dec>, rule: PricingRule)
    requires
        rule.discount_percentage.units() <= 0,
        rule.discount_amount.units() <= 0,
    ensures
        apply_discounts(rate, rule) == rate,
{
}

/// Adding a rule that does not apply to the item leaves its rate as it was.
pub proof fn lemma_inapplicable_rule_is_neutral(
    item: LineItem,
    customer_class: Option<Seq<char>>,
    date: Option<Timestamp>,
    rules: Seq<PricingRule>,
    rule: PricingRule,
)
    requires
        !rule_applies(item, customer_class, date, rule),
    ensures
        discounted_rate(item, customer_class, date, rules.push(rule)) == discounted_rate(
            item,
            customer_class,
            date,
            rules,
        ),
{
    assert(rules.push(rule).drop_last() =~= rules);
}

} // verus!
