//! Material requirements planning: the shortage of each demand against stock.
use vstd::prelude::*;
use crate::decimal::{Dec, decimal_sub, fits_at_scale, max_nat};
use crate::maps::DecimalMap;

verus! {

/// A demand for a quantity of an item, raised by an order.
#[derive(Clone, Debug)]
pub struct DemandSource {
    pub order_id: String,
    pub item_id: String,
    pub qty: Dec,
}

/// The quantity of an item available in stock.
#[derive(Clone, Debug)]
pub struct InventoryStock {
    pub item_id: String,
    pub available_qty: Dec,
}

/// The quantity of an item that a demand lacks.
#[derive(Clone, Debug)]
pub struct MRPResult {
    pub item_id: String,
    pub shortage_qty: Dec,
}

/// The stock of `item`, zero where the map has none.
pub open spec fn available_for(stocks: DecimalMap, item: Seq<char>) -> Dec {
    match stocks.spec_get(item) {
        Some(a) => a,
        None => Dec::spec_zero(),
    }
}

/// What a demand of `qty` lacks against `available`: `qty - available` where
/// it is more, else zero.
pub open spec fn shortage_of(qty: Dec, available: Dec) -> Option<Dec> {
    if available.units() < qty.units() {
        decimal_sub(qty, available)
    } else {
        Some(Dec::spec_zero())
    }
}

/// The result for one demand, measured against the whole stock of its item.
pub open spec fn demand_result(d: DemandSource, stocks: DecimalMap) -> Option<MRPResult> {
    match shortage_of(d.qty, available_for(stocks, d.item_id@)) {
        Some(s) => Some(MRPResult { item_id: d.item_id, shortage_qty: s }),
        None => None,
    }
}

/// The shortage of one demand; `None` where the subtraction overflows.
pub fn checked_calculate_shortage(demand: &DemandSource, stocks: &DecimalMap) -> (r: Option<
    MRPResult,
>)
    ensures
        r == demand_result(*demand, *stocks),
        r matches Some(m) ==> {
            let q = demand.qty;
            let a = available_for(*stocks, demand.item_id@);
            fits_at_scale(q.units() - a.units(), max_nat(q.scale_of(), a.scale_of())) ==> m.shortage_qty.units()
                == if a.units() < q.units() {
                q.units() - a.units()
            } else {
                0
            }
        },
{
    proof {
        Dec::lemma_zero_units();
    }
    let available = match stocks.get(demand.item_id.as_str()) {
        Some(a) => a,
        None => Dec::zero(),
    };
    let shortage = if available.lt(&demand.qty) {
        demand.qty.checked_sub(&available)
    } else {
        Some(Dec::zero())
    };
    match shortage {
        Some(s) => Some(MRPResult { item_id: demand.item_id.clone(), shortage_qty: s }),
        None => None,
    }
}

/// The shortage of one demand against the whole stock of its item.
pub fn calculate_shortage(demand: &DemandSource, stocks: &DecimalMap) -> (r: MRPResult)
    requires
        demand_result(*demand, *stocks) is Some,
    ensures
        Some(r) == demand_result(*demand, *stocks),
{
    checked_calculate_shortage(demand, stocks).unwrap()
}

/// Runs MRP supply planning: one result per demand, in the order of the
/// demands, each measured independently against the whole stock of its item.
pub fn run_mrp_pipeline(demands: Vec<DemandSource>, stocks: DecimalMap) -> (r: Vec<MRPResult>)
    requires
        forall|i: int| 0 <= i < demands.len() ==> #[trigger] demand_result(demands@[i], stocks) is Some,
    ensures
        r.len() == demands.len(),
        forall|i: int| 0 <= i < demands.len() ==> Some(#[trigger] r@[i]) == demand_result(demands@[i], stocks),
{
    let mut out: Vec<MRPResult> = Vec::new();
    let mut i: usize = 0;
    while i < demands.len()
        invariant
            i <= demands.len(),
            out.len() == i,
            forall|j: int| 0 <= j < demands.len() ==> #[trigger] demand_result(demands@[j], stocks) is Some,
            forall|j: int| 0 <= j < i ==> Some(#[trigger] out@[j]) == demand_result(demands@[j], stocks),
        decreases demands.len() - i,
    {
        let res = calculate_shortage(&demands[i], &stocks);
        out.push(res);
        i += 1;
    }
    out
}


/// Each demand is judged alone against the whole stock of its item: two runs
/// over the same stock give equal demands equal results, whatever the order
/// of the demands and whatever other demands stand beside them.
pub proof fn lemma_demands_judged_alone(
    demands: Seq<DemandSource>,
    results: Seq<MRPResult>,
    other_demands: Seq<DemandSource>,
    other_results: Seq<MRPResult>,
    stocks: DecimalMap,
    i: int,
    j: int,
)
    requires
        results.len() == demands.len(),
        forall|k: int| 0 <= k < demands.len() ==> Some(#[trigger] results[k]) == demand_result(demands[k], stocks),
        other_results.len() == other_demands.len(),
        forall|k: int|
            0 <= k < other_demands.len() ==> Some(#[trigger] other_results[k]) == demand_result(
                other_demands[k],
                stocks,
            ),
        0 <= i < demands.len(),
        0 <= j < other_demands.len(),
        demands[i] == other_demands[j],
    ensures
        results[i] == other_results[j],
{
    assert(Some(results[i]) == demand_result(demands[i], stocks));
    assert(Some(other_results[j]) == demand_result(other_demands[j], stocks));
}

} // verus!
