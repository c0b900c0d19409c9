//! Bills of materials: multi-level cost rollups of materials and routing operations.
use vstd::prelude::*;
use crate::decimal::{Dec, decimal_add, decimal_div, decimal_mul, o_add, o_div, o_mul};
use vstd::string::StringExecFns;

verus! {

/// A component of a bill of materials: `qty` of `child_node` per unit of the parent.
#[derive(Debug)]
pub struct BOMComponent {
    pub child_node: BOMNode,
    pub qty: Dec,
    pub rate: Dec,
}

/// A routing operation.  Its time applies to a batch of `batch_size` units;
/// its rates are costs per hour.
#[derive(Clone, Debug)]
pub struct BOMOperation {
    pub operation_id: String,
    pub workstation: String,
    pub time_in_mins: Dec,
    pub hour_rate: Dec,
    pub labor_rate: Dec,
    pub machine_wear_rate: Dec,
    pub batch_size: Dec,
}

/// A node of a bill of materials.  A phantom node, or one with components, is
/// expanded inline; any other component is a raw material bought at its rate.
#[derive(Debug)]
pub struct BOMNode {
    pub item_id: String,
    pub is_phantom: bool,
    pub components: Vec<BOMComponent>,
    pub operations: Vec<BOMOperation>,
}

/// The cost of a quantity of a node, by kind.
#[derive(Clone, Copy, Debug, PartialEq, Eq)]
pub struct BOMValuation {
    pub material_cost: Dec,
    pub labor_cost: Dec,
    pub machine_wear_cost: Dec,
    pub operating_cost: Dec,
    pub total_cost: Dec,
}

/// Costs by kind: material, labor, machine wear, operating.
pub type Costs = (Dec, Dec, Dec, Dec);

/// The zero costs.
pub open spec fn zero_costs() -> Costs {
    (Dec::spec_zero(), Dec::spec_zero(), Dec::spec_zero(), Dec::spec_zero())
}

/// Two sets of costs added kind by kind.
pub open spec fn add_costs(a: Costs, b: Costs) -> Option<Costs> {
    match (decimal_add(a.0, b.0), decimal_add(a.1, b.1), decimal_add(a.2, b.2), decimal_add(a.3, b.3)) {
        (Some(m), Some(l), Some(w), Some(o)) => Some((m, l, w, o)),
        _ => None,
    }
}

/// Whether a component is expanded rather than bought.
pub open spec fn is_expanded(node: BOMNode) -> bool {
    node.is_phantom || node.components.len() > 0
}

/// The costs of the first `k` components of `node` for `qty` units of it.
pub open spec fn component_costs(node: BOMNode, qty: Dec, k: nat) -> Option<Costs>
    decreases node, 0nat, k,
{
    if k == 0 {
        Some(zero_costs())
    } else if k > node.components.len() {
        None
    } else {
        let comp = node.components@[k - 1];
        proof {
            assert(decreases_to!(node => node.components));
            assert(decreases_to!(node.components => node.components@));
            assert(decreases_to!(node.components@ => node.components@[k - 1]));
        }
        match (component_costs(node, qty, (k - 1) as nat), decimal_mul(comp.qty, qty)) {
            (Some(acc), Some(child_qty)) => if is_expanded(comp.child_node) {
                match bom_costs(comp.child_node, child_qty) {
                    Some(child) => add_costs(acc, child),
                    None => None,
                }
            } else {
                match o_add(Some(acc.0), decimal_mul(child_qty, comp.rate)) {
                    Some(m) => Some((m, acc.1, acc.2, acc.3)),
                    None => None,
                }
            },
            _ => None,
        }
    }
}

/// The hours of an operation for `qty` units: `(qty / batch) * minutes / 60`,
/// a zero batch size counting as one.
pub open spec fn operation_hours(op: BOMOperation, qty: Dec) -> Option<Dec> {
    let batch = if op.batch_size.is_zero_value() {
        Dec::spec_one()
    } else {
        op.batch_size
    };
    o_div(o_mul(decimal_div(qty, batch), Some(op.time_in_mins)), Some(Dec::spec_new(60, 0)))
}

/// `acc` with the costs of the first `k` operations for `qty` units added:
/// hours times the wear, labor and hour rates.
pub open spec fn operation_costs(ops: Seq<BOMOperation>, qty: Dec, acc: Costs, k: nat) -> Option<
    Costs,
>
    decreases k,
{
    if k == 0 {
        Some(acc)
    } else {
        let op = ops[k - 1];
        match (operation_costs(ops, qty, acc, (k - 1) as nat), operation_hours(op, qty)) {
            (Some(c), Some(h)) => match (
                decimal_mul(h, op.machine_wear_rate),
                decimal_mul(h, op.labor_rate),
                decimal_mul(h, op.hour_rate),
            ) {
                (Some(w), Some(l), Some(o)) => match (
                    decimal_add(c.1, l),
                    decimal_add(c.2, w),
                    decimal_add(c.3, o),
                ) {
                    (Some(l2), Some(w2), Some(o2)) => Some((c.0, l2, w2, o2)),
                    _ => None,
                },
                _ => None,
            },
            _ => None,
        }
    }
}

/// The costs of `qty` units of `node`: its components, then its operations.
pub open spec fn bom_costs(node: BOMNode, qty: Dec) -> Option<Costs>
    decreases node, 1nat, 0nat,
{
    match component_costs(node, qty, node.components@.len()) {
        None => None,
        Some(c) => operation_costs(node.operations@, qty, c, node.operations@.len()),
    }
}

/// The valuation of `qty` units of `node`: its costs and their total
/// `material + labor + wear + operating`.
pub open spec fn bom_valuation(node: BOMNode, qty: Dec) -> Option<BOMValuation> {
    match bom_costs(node, qty) {
        None => None,
        Some((m, l, w, o)) => match o_add(o_add(decimal_add(m, l), Some(w)), Some(o)) {
            Some(t) => Some(
                BOMValuation {
                    material_cost: m,
                    labor_cost: l,
                    machine_wear_cost: w,
                    operating_cost: o,
                    total_cost: t,
                },
            ),
            None => None,
        },
    }
}

fn add_costs_exec(a: (Dec, Dec, Dec, Dec), b: (Dec, Dec, Dec, Dec)) -> (r: Option<(Dec, Dec, Dec, Dec)>)
    ensures
        r == add_costs(a, b),
{
    match (a.0.checked_add(&b.0), a.1.checked_add(&b.1), a.2.checked_add(&b.2), a.3.checked_add(&b.3)) {
        (Some(m), Some(l), Some(w), Some(o)) => Some((m, l, w, o)),
        _ => None,
    }
}

/// The costs of `qty` units of `node`.
fn bom_costs_exec(node: &BOMNode, qty: Dec) -> (r: Option<(Dec, Dec, Dec, Dec)>)
    ensures
        r == bom_costs(*node, qty),
    decreases node,
{
    let mut acc: Option<(Dec, Dec, Dec, Dec)> = Some((Dec::zero(), Dec::zero(), Dec::zero(), Dec::zero()));
    let mut k: usize = 0;
    while k < node.components.len()
        invariant
            k <= node.components.len(),
            acc == component_costs(*node, qty, k as nat),
        decreases node.components.len() - k,
    {
        let comp = &node.components[k];
        proof {
            assert(decreases_to!(*node => node.components));
            assert(decreases_to!(node.components => node.components@));
            assert(decreases_to!(node.components@ => node.components@[k as int]));
        }
        if let Some(c) = acc {
            match comp.qty.checked_mul(&qty) {
                None => {
                    acc = None;
                },
                Some(child_qty) => {
                    if comp.child_node.is_phantom || comp.child_node.components.len() > 0 {
                        match bom_costs_exec(&comp.child_node, child_qty) {
                            Some(child) => {
                                acc = add_costs_exec(c, child);
                            },
                            None => {
                                acc = None;
                            },
                        }
                    } else {
                        match crate::decimal::add_opt(Some(c.0), child_qty.checked_mul(&comp.rate)) {
                            Some(m) => {
                                acc = Some((m, c.1, c.2, c.3));
                            },
                            None => {
                                acc = None;
                            },
                        }
                    }
                },
            }
        }
        k += 1;
    }
    let base = match acc {
        Some(c) => c,
        None => {
            return None;
        },
    };
    let sixty = Dec::new(60, 0);
    let mut costs: Option<(Dec, Dec, Dec, Dec)> = Some(base);
    let mut j: usize = 0;
    while j < node.operations.len()
        invariant
            j <= node.operations.len(),
            sixty == Dec::spec_new(60, 0),
            costs == operation_costs(node.operations@, qty, base, j as nat),
        decreases node.operations.len() - j,
    {
        let op = &node.operations[j];
        if let Some(c) = costs {
            let batch = if op.batch_size.is_zero() {
                Dec::one()
            } else {
                op.batch_size
            };
            let mins = crate::decimal::mul_opt(qty.checked_div(&batch), Some(op.time_in_mins));
            let hours = crate::decimal::div_opt(mins, Some(sixty));
            match hours {
                None => {
                    costs = None;
                },
                Some(h) => {
                    match (
                        h.checked_mul(&op.machine_wear_rate),
                        h.checked_mul(&op.labor_rate),
                        h.checked_mul(&op.hour_rate),
                    ) {
                        (Some(w), Some(l), Some(o)) => {
                            match (c.1.checked_add(&l), c.2.checked_add(&w), c.3.checked_add(&o)) {
                                (Some(l2), Some(w2), Some(o2)) => {
                                    costs = Some((c.0, l2, w2, o2));
                                },
                                _ => {
                                    costs = None;
                                },
                            }
                        },
                        _ => {
                            costs = None;
                        },
                    }
                },
            }
        }
        j += 1;
    }
    costs
}

/// The valuation of `qty` units of `node`; `None` where a decimal operation overflows.
pub fn checked_calculate_bom_valuation(node: &BOMNode, qty: Dec) -> (r: Option<BOMValuation>)
    ensures
        r == bom_valuation(*node, qty),
{
    match bom_costs_exec(node, qty) {
        None => None,
        Some((m, l, w, o)) => {
            let t = crate::decimal::add_opt(
                crate::decimal::add_opt(m.checked_add(&l), Some(w)),
                Some(o),
            );
            match t {
                Some(total) => Some(
                    BOMValuation {
                        material_cost: m,
                        labor_cost: l,
                        machine_wear_cost: w,
                        operating_cost: o,
                        total_cost: total,
                    },
                ),
                None => None,
            }
        },
    }
}

/// Recursively calculates the multi-level valuation of a BOM, expanding phantom
/// nodes and sub-assemblies inline.
pub fn calculate_bom_valuation(node: &BOMNode, qty: Dec) -> (r: BOMValuation)
    requires
        bom_valuation(*node, qty) is Some,
    ensures
        Some(r) == bom_valuation(*node, qty),
{
    checked_calculate_bom_valuation(node, qty).unwrap()
}

/// The total cost of one unit of a BOM.
pub fn calculate_bom_cost(node: &BOMNode) -> (r: Dec)
    requires
        bom_valuation(*node, Dec::spec_one()) is Some,
    ensures
        r == bom_valuation(*node, Dec::spec_one()).unwrap().total_cost,
{
    calculate_bom_valuation(node, Dec::one()).total_cost
}

/// The SurrealQL query that fetches the direct components of an item.
pub fn generate_bom_dag_query(parent_item: &str) -> (r: String)
    ensures
        r@ == "SELECT ->requires->bom_node.* AS components FROM item:"@ + parent_item@
            + " FETCH components;"@,
{
    let mut q = String::from_str("SELECT ->requires->bom_node.* AS components FROM item:");
    q.append(parent_item);
    q.append(" FETCH components;");
    q
}

} // verus!
