//! The stock ledger: quantities and valuation of each item at each warehouse,
//! by moving average or by FIFO layers.
use vstd::prelude::*;
use crate::decimal::{Dec, decimal_add, decimal_mul, decimal_sub, o_add, o_div, sum_prefix};
use crate::inventory::StockError;
use crate::sorting::{Timed, sort_by_time, stable_sort_by_time};
use crate::text::str_eq;
use crate::time::Timestamp;

verus! {

/// A FIFO layer: a received quantity and its rate.
#[derive(Clone, Copy, Debug)]
pub struct StockQueueNode {
    pub qty: Dec,
    pub rate: Dec,
    pub timestamp: Timestamp,
}

impl Timed for StockQueueNode {
    open spec fn time_of(&self) -> Timestamp {
        self.timestamp
    }

    fn time(&self) -> (r: Timestamp) {
        self.timestamp
    }
}

/// How issues of stock are valued.
#[derive(Clone, Copy, Debug, PartialEq, Eq, Structural)]
pub enum ValuationMethod {
    FIFO,
    MovingAverage,
}

/// The stock of one item at one warehouse.
#[derive(Clone, Debug)]
pub struct WarehouseStockState {
    pub valuation_method: ValuationMethod,
    pub qty: Dec,
    pub moving_average_rate: Dec,
    pub fifo_queue: Vec<StockQueueNode>,
}

/// A stock state as plain values: method, quantity, moving average rate, FIFO layers.
pub type StockParts = (ValuationMethod, Dec, Dec, Seq<StockQueueNode>);

impl WarehouseStockState {
    /// The state as plain values.
    pub open spec fn parts(&self) -> StockParts {
        (self.valuation_method, self.qty, self.moving_average_rate, self.fifo_queue@)
    }

    /// An empty stock valued by `valuation_method`.
    pub fn new(valuation_method: ValuationMethod) -> (r: WarehouseStockState)
        ensures
            r.parts() == empty_stock(valuation_method),
    {
        WarehouseStockState {
            valuation_method,
            qty: Dec::zero(),
            moving_average_rate: Dec::zero(),
            fifo_queue: Vec::new(),
        }
    }
}

/// An empty stock: zero quantity, zero rate, no layers.
pub open spec fn empty_stock(method: ValuationMethod) -> StockParts {
    (method, Dec::spec_zero(), Dec::spec_zero(), Seq::empty())
}

/// The quantities of the layers.
pub open spec fn layer_qtys(queue: Seq<StockQueueNode>) -> Seq<Dec> {
    queue.map_values(|n: StockQueueNode| n.qty)
}

/// Takes `issue` from the front layers of `queue`, adding the cost of what it
/// takes to `cogs`: a layer no larger than what is left is used up and
/// removed; a larger layer is reduced and ends the issue.
pub open spec fn take_from_layers(queue: Seq<StockQueueNode>, issue: Dec, cogs: Dec) -> Option<
    (Seq<StockQueueNode>, Dec),
>
    decreases queue.len(),
{
    if !(issue.units() > 0) || queue.len() == 0 {
        Some((queue, cogs))
    } else {
        let node = queue[0];
        if node.qty.units() <= issue.units() {
            match (o_add(Some(cogs), decimal_mul(node.qty, node.rate)), decimal_sub(issue, node.qty)) {
                (Some(c2), Some(i2)) => take_from_layers(queue.drop_first(), i2, c2),
                _ => None,
            }
        } else {
            match (o_add(Some(cogs), decimal_mul(issue, node.rate)), decimal_sub(node.qty, issue)) {
                (Some(c2), Some(q2)) => Some((queue.update(0, StockQueueNode { qty: q2, ..node }), c2)),
                _ => None,
            }
        }
    }
}

/// Whether `q` is `queue` with its first `k` layers used up and the next
/// possibly reduced in quantity (keeping its rate and time).
pub open spec fn front_taken(queue: Seq<StockQueueNode>, q: Seq<StockQueueNode>, k: int) -> bool {
    &&& 0 <= k <= queue.len()
    &&& (q == queue.skip(k) || (k < queue.len() && q.len() == queue.len() - k && q[0].rate == queue[k].rate
        && q[0].timestamp == queue[k].timestamp && q.drop_first() == queue.skip(k + 1)))
}

/// Issuing from FIFO layers takes them from the front: what remains is the
/// layers after the first `k` used up, the first of them possibly reduced in
/// quantity.
pub proof fn lemma_layers_taken_from_front(queue: Seq<StockQueueNode>, issue: Dec, cogs: Dec)
    ensures
        take_from_layers(queue, issue, cogs) is Some ==> exists|k: int|
            #[trigger] front_taken(queue, take_from_layers(queue, issue, cogs).unwrap().0, k),
    decreases queue.len(),
{
    if !(issue.units() > 0) || queue.len() == 0 {
        assert(take_from_layers(queue, issue, cogs) == Some((queue, cogs)));
        assert(queue.skip(0) =~= queue);
        assert(front_taken(queue, take_from_layers(queue, issue, cogs).unwrap().0, 0));
    } else {
        let node = queue[0];
        if node.qty.units() <= issue.units() {
            match (o_add(Some(cogs), decimal_mul(node.qty, node.rate)), decimal_sub(issue, node.qty)) {
                (Some(c2), Some(i2)) => {
                    let rest = queue.drop_first();
                    lemma_layers_taken_from_front(rest, i2, c2);
                    assert(take_from_layers(queue, issue, cogs) == take_from_layers(rest, i2, c2));
                    if take_from_layers(rest, i2, c2) is Some {
                        let q = take_from_layers(rest, i2, c2).unwrap().0;
                        let k = choose|k: int| #[trigger] front_taken(rest, q, k);
                        assert(rest.skip(k) =~= queue.skip(k + 1));
                        if k < rest.len() {
                            assert(rest.skip(k + 1) =~= queue.skip(k + 2));
                            assert(rest[k] == queue[k + 1]);
                        }
                        assert(front_taken(queue, take_from_layers(queue, issue, cogs).unwrap().0, k + 1));
                        assert(take_from_layers(queue, issue, cogs).unwrap().0 == q);
                    } else {
                        assert(take_from_layers(queue, issue, cogs) is None);
                    }
                },
                _ => {
                    assert(take_from_layers(queue, issue, cogs) is None);
                },
            }
        } else {
            match (o_add(Some(cogs), decimal_mul(issue, node.rate)), decimal_sub(node.qty, issue)) {
                (Some(c2), Some(q2)) => {
                    let q = queue.update(0, StockQueueNode { qty: q2, ..node });
                    assert(take_from_layers(queue, issue, cogs) == Some((q, c2)));
                    assert(q.drop_first() =~= queue.skip(1));
                    assert(front_taken(queue, take_from_layers(queue, issue, cogs).unwrap().0, 0));
                },
                _ => {
                    assert(take_from_layers(queue, issue, cogs) is None);
                },
            }
        }
    }
}

/// Issuing `issue` from FIFO layers: the layers afterwards and the cost of
/// goods sold.  A non-positive issue costs nothing and leaves the layers as
/// they are; otherwise the layers are sorted by time, and an issue larger than
/// their total fails with `InsufficientStock`.
pub open spec fn consume_fifo(queue: Seq<StockQueueNode>, issue: Dec) -> Option<
    (Seq<StockQueueNode>, Result<Dec, StockError>),
> {
    if issue.is_neg() || issue.is_zero_value() {
        Some((queue, Ok(Dec::spec_zero())))
    } else {
        let sorted = sort_by_time(queue);
        match sum_prefix(layer_qtys(sorted), sorted.len()) {
            None => None,
            Some(total) => if total.units() < issue.units() {
                Some((sorted, Err(StockError::InsufficientStock)))
            } else {
                match take_from_layers(sorted, issue, Dec::spec_zero()) {
                    Some((q, c)) => Some((q, Ok(c))),
                    None => None,
                }
            },
        }
    }
}

/// A FIFO issue of a positive quantity that succeeds leaves the time-sorted
/// layers with the oldest used up and the next possibly reduced.
pub proof fn lemma_fifo_issue_takes_oldest(queue: Seq<StockQueueNode>, issue: Dec)
    ensures
        !issue.is_neg() && !issue.is_zero_value() ==> (consume_fifo(queue, issue) matches Some((q, Ok(_)))
            ==> exists|k: int| #[trigger] front_taken(sort_by_time(queue), q, k)),
{
    let sorted = sort_by_time(queue);
    lemma_layers_taken_from_front(sorted, issue, Dec::spec_zero());
    if !issue.is_neg() && !issue.is_zero_value() {
        if let Some((q, Ok(_))) = consume_fifo(queue, issue) {
            let t = take_from_layers(sorted, issue, Dec::spec_zero());
            assert(t is Some && t.unwrap().0 == q);
            let k = choose|k: int| #[trigger] front_taken(sorted, t.unwrap().0, k);
            assert(front_taken(sorted, q, k));
        }
    }
}

/// Depletes quantity from the FIFO layers and returns the cost of goods sold;
/// `None` where a decimal operation overflows.
pub fn checked_consume_fifo_queue(queue: &mut Vec<StockQueueNode>, issue_qty: Dec) -> (r: Option<
    Result<Dec, StockError>,
>)
    ensures
        r is Some <==> consume_fifo(old(queue)@, issue_qty) is Some,
        r matches Some(res) ==> consume_fifo(old(queue)@, issue_qty) == Some((final(queue)@, res)),
{
    let zero = Dec::zero();
    if issue_qty.is_sign_negative() || issue_qty.is_zero() {
        return Some(Ok(zero));
    }
    stable_sort_by_time(queue);
    let ghost sorted = queue@;
    let mut total: Option<Dec> = Some(Dec::zero());
    let mut i: usize = 0;
    while i < queue.len()
        invariant
            i <= queue.len(),
            queue@ == sorted,
            total == sum_prefix(layer_qtys(sorted), i as nat),
        decreases queue.len() - i,
    {
        total = crate::decimal::add_opt(total, Some(queue[i].qty));
        i += 1;
    }
    let total = match total {
        Some(t) => t,
        None => {
            return None;
        },
    };
    if total.lt(&issue_qty) {
        return Some(Err(StockError::InsufficientStock));
    }
    let mut issue = issue_qty;
    let mut cogs = Dec::zero();
    let mut ok = true;
    while ok && zero.lt(&issue) && queue.len() > 0
        invariant
            zero == Dec::spec_zero(),
            zero.units() == 0,
            take_from_layers(sorted, issue_qty, Dec::spec_zero()) == if ok {
                take_from_layers(queue@, issue, cogs)
            } else {
                None
            },
        decreases queue@.len() * 2 + (if issue.units() > 0 {
            1int
        } else {
            0int
        }) + (if ok {
            1int
        } else {
            0int
        }),
    {
        let node = queue[0];
        if node.qty.le(&issue) {
            match (crate::decimal::add_opt(Some(cogs), node.qty.checked_mul(&node.rate)), issue.checked_sub(&node.qty)) {
                (Some(c2), Some(i2)) => {
                    queue.remove(0);
                    cogs = c2;
                    issue = i2;
                },
                _ => {
                    ok = false;
                },
            }
        } else {
            match (crate::decimal::add_opt(Some(cogs), issue.checked_mul(&node.rate)), node.qty.checked_sub(&issue)) {
                (Some(c2), Some(q2)) => {
                    let ghost before = queue@;
                    queue.remove(0);
                    queue.insert(0, StockQueueNode { qty: q2, ..node });
                    proof {
                        assert(queue@ =~= before.update(0, StockQueueNode { qty: q2, ..node }));
                    }
                    cogs = c2;
                    issue = zero;
                },
                _ => {
                    ok = false;
                },
            }
        }
    }
    if ok {
        Some(Ok(cogs))
    } else {
        None
    }
}

/// Depletes quantity from the FIFO layers, oldest first, and returns the cost
/// of goods sold.
pub fn consume_fifo_queue(queue: &mut Vec<StockQueueNode>, issue_qty: Dec) -> (r: Result<
    Dec,
    StockError,
>)
    requires
        consume_fifo(old(queue)@, issue_qty) is Some,
    ensures
        consume_fifo(old(queue)@, issue_qty) == Some((final(queue)@, r)),
{
    checked_consume_fifo_queue(queue, issue_qty).unwrap()
}

/// A stock change applied to a state: the state afterwards and the cost of
/// goods sold.  A change that would leave a negative quantity is refused with
/// `InsufficientStock` unless negative stock is allowed.  A receipt (positive
/// sign) raises the quantity and either re-averages the rate or adds a FIFO
/// layer; an issue lowers it and is valued at the moving average rate or taken
/// from the FIFO layers.
pub open spec fn stock_change(
    st: StockParts,
    qty_change: Dec,
    rate: Dec,
    timestamp: Timestamp,
    allow_negative: bool,
) -> Option<(StockParts, Result<Dec, StockError>)> {
    let (method, qty, avg, queue) = st;
    match decimal_add(qty, qty_change) {
        None => None,
        Some(new_qty) => if new_qty.is_neg() && !allow_negative {
            Some((st, Err(StockError::InsufficientStock)))
        } else if !qty_change.is_neg() {
            match method {
                ValuationMethod::MovingAverage => {
                    let new_avg = if new_qty.is_zero_value() {
                        Some(Dec::spec_zero())
                    } else {
                        o_div(
                            o_add(decimal_mul(qty, avg), decimal_mul(qty_change, rate)),
                            Some(new_qty),
                        )
                    };
                    match new_avg {
                        Some(a) => Some(((method, new_qty, a, queue), Ok(Dec::spec_zero()))),
                        None => None,
                    }
                },
                ValuationMethod::FIFO => Some(
                    (
                        (
                            method,
                            new_qty,
                            avg,
                            queue.push(StockQueueNode { qty: qty_change, rate, timestamp }),
                        ),
                        Ok(Dec::spec_zero()),
                    ),
                ),
            }
        } else {
            let issue = qty_change.spec_negate();
            match method {
                ValuationMethod::MovingAverage => match decimal_mul(issue, avg) {
                    Some(c) => Some(((method, new_qty, avg, queue), Ok(c))),
                    None => None,
                },
                ValuationMethod::FIFO => match consume_fifo(queue, issue) {
                    None => None,
                    Some((q2, Ok(c))) => Some(((method, new_qty, avg, q2), Ok(c))),
                    Some((q2, Err(e))) => Some(((method, qty, avg, q2), Err(e))),
                },
            }
        },
    }
}

impl WarehouseStockState {
    /// Applies a stock change and returns the cost of goods sold; `None` where
    /// a decimal operation overflows.
    pub fn checked_apply_change(
        &mut self,
        qty_change: Dec,
        rate: Dec,
        timestamp: Timestamp,
        allow_negative: bool,
    ) -> (r: Option<Result<Dec, StockError>>)
        ensures
            r is Some <==> stock_change(old(self).parts(), qty_change, rate, timestamp, allow_negative) is Some,
            r matches Some(res) ==> stock_change(
                old(self).parts(),
                qty_change,
                rate,
                timestamp,
                allow_negative,
            ) == Some((final(self).parts(), res)),
    {
        let new_qty = match self.qty.checked_add(&qty_change) {
            Some(q) => q,
            None => {
                return None;
            },
        };
        if new_qty.is_sign_negative() && !allow_negative {
            return Some(Err(StockError::InsufficientStock));
        }
        let zero = Dec::zero();
        if qty_change.is_sign_positive() {
            match self.valuation_method {
                ValuationMethod::MovingAverage => {
                    if new_qty.is_zero() {
                        self.moving_average_rate = zero;
                    } else {
                        let held = self.qty.checked_mul(&self.moving_average_rate);
                        let received = qty_change.checked_mul(&rate);
                        match crate::decimal::div_opt(
                            crate::decimal::add_opt(held, received),
                            Some(new_qty),
                        ) {
                            Some(a) => {
                                self.moving_average_rate = a;
                            },
                            None => {
                                return None;
                            },
                        }
                    }
                },
                ValuationMethod::FIFO => {
                    self.fifo_queue.push(StockQueueNode { qty: qty_change, rate, timestamp });
                },
            }
            self.qty = new_qty;
            Some(Ok(zero))
        } else {
            let issue_qty = qty_change.negate();
            match self.valuation_method {
                ValuationMethod::MovingAverage => {
                    match issue_qty.checked_mul(&self.moving_average_rate) {
                        Some(c) => {
                            self.qty = new_qty;
                            Some(Ok(c))
                        },
                        None => None,
                    }
                },
                ValuationMethod::FIFO => {
                    match checked_consume_fifo_queue(&mut self.fifo_queue, issue_qty) {
                        None => None,
                        Some(Ok(c)) => {
                            self.qty = new_qty;
                            Some(Ok(c))
                        },
                        Some(Err(e)) => Some(Err(e)),
                    }
                },
            }
        }
    }
}

/// The stock state of an item at a warehouse.
#[derive(Clone, Debug)]
pub struct StockEntry {
    pub item_id: String,
    pub warehouse: String,
    pub state: WarehouseStockState,
}

/// Whether `e` is the entry of `item` at `warehouse`.
pub open spec fn entry_is(e: StockEntry, item: Seq<char>, warehouse: Seq<char>) -> bool {
    e.item_id@ == item && e.warehouse@ == warehouse
}

/// The index of the first entry of `item` at `warehouse`, or -1.
pub open spec fn entry_index(entries: Seq<StockEntry>, item: Seq<char>, warehouse: Seq<char>) -> int
    decreases entries.len(),
{
    if entries.len() == 0 {
        -1
    } else if entry_is(entries[0], item, warehouse) {
        0
    } else {
        let j = entry_index(entries.drop_first(), item, warehouse);
        if j < 0 {
            -1
        } else {
            j + 1
        }
    }
}

/// The index found by `entry_index` is a real index whose entry matches, and
/// no earlier entry matches; -1 means that no entry matches.
pub proof fn lemma_entry_index(entries: Seq<StockEntry>, item: Seq<char>, warehouse: Seq<char>)
    ensures
        -1 <= entry_index(entries, item, warehouse) < entries.len(),
        entry_index(entries, item, warehouse) >= 0 ==> entry_is(
            entries[entry_index(entries, item, warehouse)],
            item,
            warehouse,
        ),
        forall|k: int|
            0 <= k < entries.len() && (k < entry_index(entries, item, warehouse) || entry_index(
                entries,
                item,
                warehouse,
            ) < 0) ==> !entry_is(#[trigger] entries[k], item, warehouse),
    decreases entries.len(),
{
    if entries.len() > 0 && !entry_is(entries[0], item, warehouse) {
        lemma_entry_index(entries.drop_first(), item, warehouse);
        assert forall|k: int|
            0 <= k < entries.len() && (k < entry_index(entries, item, warehouse) || entry_index(
                entries,
                item,
                warehouse,
            ) < 0) implies !entry_is(#[trigger] entries[k], item, warehouse) by {
            if k > 0 {
                assert(entries[k] == entries.drop_first()[k - 1]);
            }
        }
    }
}

/// Whether no two entries are for the same item at the same warehouse.
pub open spec fn keys_unique(entries: Seq<StockEntry>) -> bool {
    forall|i: int, j: int|
        0 <= i < j < entries.len() ==> !entry_is(
            #[trigger] entries[j],
            entries[i].item_id@,
            entries[i].warehouse@,
        ) || !entry_is(#[trigger] entries[i], entries[j].item_id@, entries[j].warehouse@)
}

/// Where keys are unique, the entry found for a key is the only entry for it.
pub proof fn lemma_unique_entry(entries: Seq<StockEntry>, k: int, item: Seq<char>, warehouse: Seq<char>)
    requires
        keys_unique(entries),
        0 <= k < entries.len(),
        entry_is(entries[k], item, warehouse),
    ensures
        entry_index(entries, item, warehouse) == k,
{
    lemma_entry_index(entries, item, warehouse);
    let j = entry_index(entries, item, warehouse);
    if j != k {
        assert(j >= 0);
        if j < k {
            assert(entry_is(entries[j], item, warehouse));
            assert(!entry_is(entries[k], entries[j].item_id@, entries[j].warehouse@) || !entry_is(
                entries[j],
                entries[k].item_id@,
                entries[k].warehouse@,
            ));
        }
    }
}

/// Replacing an entry by one for the same key keeps keys unique.
proof fn lemma_keys_unique_update(entries: Seq<StockEntry>, idx: int, e: StockEntry)
    requires
        keys_unique(entries),
        0 <= idx < entries.len(),
        e.item_id@ == entries[idx].item_id@,
        e.warehouse@ == entries[idx].warehouse@,
    ensures
        keys_unique(entries.update(idx, e)),
{
    let u = entries.update(idx, e);
    assert forall|i: int, j: int| 0 <= i < j < u.len() implies !entry_is(
        #[trigger] u[j],
        u[i].item_id@,
        u[i].warehouse@,
    ) || !entry_is(#[trigger] u[i], u[j].item_id@, u[j].warehouse@) by {
        assert(u[i].item_id@ == entries[i].item_id@ && u[i].warehouse@ == entries[i].warehouse@);
        assert(u[j].item_id@ == entries[j].item_id@ && u[j].warehouse@ == entries[j].warehouse@);
        assert(!entry_is(entries[j], entries[i].item_id@, entries[i].warehouse@) || !entry_is(
            entries[i],
            entries[j].item_id@,
            entries[j].warehouse@,
        ));
    }
}

/// The stock of every item at every warehouse, one entry for each item and
/// warehouse (`keys_unique`, which every operation keeps).  An item that has
/// not been seen at a warehouse is stocked there by moving average.
#[derive(Clone, Debug)]
pub struct WarehouseStockRegistry {
    pub states: Vec<StockEntry>,
    pub allow_negative_stock: bool,
}

/// The state of `item` at `warehouse` in `entries`, if any.
pub open spec fn state_of(entries: Seq<StockEntry>, item: Seq<char>, warehouse: Seq<char>) -> Option<
    StockParts,
> {
    let j = entry_index(entries, item, warehouse);
    if j < 0 {
        None
    } else {
        Some(entries[j].state.parts())
    }
}

impl WarehouseStockRegistry {
    /// An empty registry.
    pub fn new(allow_negative_stock: bool) -> (r: WarehouseStockRegistry)
        ensures
            r.states@.len() == 0,
            keys_unique(r.states@),
            r.allow_negative_stock == allow_negative_stock,
    {
        WarehouseStockRegistry { states: Vec::new(), allow_negative_stock }
    }

    /// The index of the entry of `item_id` at `warehouse`, if any.
    fn find(&self, item_id: &str, warehouse: &str) -> (r: Option<usize>)
        ensures
            r == (if entry_index(self.states@, item_id@, warehouse@) < 0 {
                None::<usize>
            } else {
                Some(entry_index(self.states@, item_id@, warehouse@) as usize)
            }),
            r matches Some(i) ==> i < self.states.len() && i as int == entry_index(
                self.states@,
                item_id@,
                warehouse@,
            ),
            r is None ==> entry_index(self.states@, item_id@, warehouse@) < 0,
    {
        proof {
            lemma_entry_index(self.states@, item_id@, warehouse@);
        }
        let mut i: usize = 0;
        proof {
            assert(self.states@.skip(0) =~= self.states@);
        }
        while i < self.states.len()
            invariant
                i <= self.states.len(),
                entry_index(self.states@, item_id@, warehouse@) == (if entry_index(
                    self.states@.skip(i as int),
                    item_id@,
                    warehouse@,
                ) < 0 {
                    -1
                } else {
                    entry_index(self.states@.skip(i as int), item_id@, warehouse@) + i
                }),
            decreases self.states.len() - i,
        {
            proof {
                assert(self.states@.skip(i as int)[0] == self.states@[i as int]);
                assert(self.states@.skip(i as int).drop_first() =~= self.states@.skip(i + 1));
            }
            if str_eq(self.states[i].item_id.as_str(), item_id) && str_eq(
                self.states[i].warehouse.as_str(),
                warehouse,
            ) {
                return Some(i);
            }
            i += 1;
        }
        proof {
            assert(self.states@.skip(i as int) =~= Seq::<StockEntry>::empty());
        }
        None
    }

    /// The state of `item_id` at `warehouse`, if it has one.
    pub fn get_state(&self, item_id: &str, warehouse: &str) -> (r: Option<&WarehouseStockState>)
        ensures
            match r {
                Some(s) => state_of(self.states@, item_id@, warehouse@) == Some(s.parts()),
                None => state_of(self.states@, item_id@, warehouse@) is None,
            },
    {
        match self.find(item_id, warehouse) {
            Some(i) => Some(&self.states[i].state),
            None => None,
        }
    }

    /// The index of the entry of `item_id` at `warehouse`, adding one stocked
    /// by `method` if there is none.
    fn find_or_insert(&mut self, item_id: &str, warehouse: &str, method: ValuationMethod) -> (r:
        usize)
        ensures
            r < final(self).states.len(),
            entry_index(final(self).states@, item_id@, warehouse@) == r as int,
            final(self).allow_negative_stock == old(self).allow_negative_stock,
            entry_index(old(self).states@, item_id@, warehouse@) >= 0 ==> final(self).states@ == old(
                self,
            ).states@,
            entry_index(old(self).states@, item_id@, warehouse@) < 0 ==> final(self).states@ == old(
                self,
            ).states@.push(
                StockEntry {
                    item_id: final(self).states@[r as int].item_id,
                    warehouse: final(self).states@[r as int].warehouse,
                    state: final(self).states@[r as int].state,
                },
            ) && final(self).states@[r as int].state.parts() == empty_stock(method)
                && final(self).states@[r as int].item_id@ == item_id@
                && final(self).states@[r as int].warehouse@ == warehouse@,
            keys_unique(old(self).states@) ==> keys_unique(final(self).states@),
    {
        match self.find(item_id, warehouse) {
            Some(i) => i,
            None => {
                let ghost before = self.states@;
                let entry = StockEntry {
                    item_id: item_id.to_owned(),
                    warehouse: warehouse.to_owned(),
                    state: WarehouseStockState::new(method),
                };
                self.states.push(entry);
                proof {
                    lemma_entry_index(before, item_id@, warehouse@);
                    lemma_entry_index_push(before, self.states@.last(), item_id@, warehouse@);
                    if keys_unique(before) {
                        let n = self.states@;
                        assert forall|i: int, j: int| 0 <= i < j < n.len() implies !entry_is(
                            #[trigger] n[j],
                            n[i].item_id@,
                            n[i].warehouse@,
                        ) || !entry_is(#[trigger] n[i], n[j].item_id@, n[j].warehouse@) by {
                            if j == n.len() - 1 {
                                assert(n[i] == before[i]);
                                assert(!entry_is(before[i], item_id@, warehouse@));
                            } else {
                                assert(n[i] == before[i] && n[j] == before[j]);
                            }
                        }
                    }
                }
                self.states.len() - 1
            },
        }
    }

    /// Records a stock change of an item at a warehouse and returns the cost of
    /// goods sold; `None` where a decimal operation overflows.  An item not yet
    /// at the warehouse is first given an empty moving-average stock there.
    pub fn checked_update_stock(
        &mut self,
        item_id: &str,
        warehouse: &str,
        qty_change: Dec,
        rate: Dec,
        timestamp: Timestamp,
    ) -> (r: Option<Result<Dec, StockError>>)
        ensures
            keys_unique(old(self).states@) ==> keys_unique(final(self).states@),
            state_of(final(self).states@, item_id@, warehouse@) is Some,
            final(self).allow_negative_stock == old(self).allow_negative_stock,
            ({
                let before = match state_of(old(self).states@, item_id@, warehouse@) {
                    Some(p) => p,
                    None => empty_stock(ValuationMethod::MovingAverage),
                };
                let change = stock_change(
                    before,
                    qty_change,
                    rate,
                    timestamp,
                    old(self).allow_negative_stock,
                );
                &&& (r is Some <==> change is Some)
                &&& (r matches Some(res) ==> change == Some(
                    (state_of(final(self).states@, item_id@, warehouse@).unwrap(), res),
                ))
            }),
            r is Some ==> forall|i: Seq<char>, w: Seq<char>|
                !(i == item_id@ && w == warehouse@) ==> #[trigger] state_of(
                    final(self).states@,
                    i,
                    w,
                ) == state_of(old(self).states@, i, w),
    {
        let ghost old_states = self.states@;
        let idx = self.find_or_insert(item_id, warehouse, ValuationMethod::MovingAverage);
        let ghost mid_states = self.states@;
        let mut entry = self.states.remove(idx);
        let r = entry.state.checked_apply_change(
            qty_change,
            rate,
            timestamp,
            self.allow_negative_stock,
        );
        self.states.insert(idx, entry);
        proof {
            assert(self.states@ =~= mid_states.update(idx as int, entry));
            if keys_unique(mid_states) {
                lemma_keys_unique_update(mid_states, idx as int, entry);
            }
            lemma_entry_index_update(mid_states, idx as int, entry);
            lemma_entry_index(old_states, item_id@, warehouse@);
            assert forall|i: Seq<char>, w: Seq<char>|
                !(i == item_id@ && w == warehouse@) implies #[trigger] state_of(
                self.states@,
                i,
                w,
            ) == state_of(old_states, i, w) by {
                lemma_entry_index_update_other(mid_states, idx as int, entry, item_id@, warehouse@, i, w);
                if entry_index(old_states, item_id@, warehouse@) < 0 {
                    lemma_entry_index_push_other(old_states, mid_states.last(), item_id@, warehouse@, i, w);
                }
            }
        }
        r
    }

    /// Records a stock change of an item at a warehouse and returns the cost of goods sold.
    pub fn update_stock(
        &mut self,
        item_id: &str,
        warehouse: &str,
        qty_change: Dec,
        rate: Dec,
        timestamp: Timestamp,
    ) -> (r: Result<Dec, StockError>)
        requires
            stock_change(
                match state_of(old(self).states@, item_id@, warehouse@) {
                    Some(p) => p,
                    None => empty_stock(ValuationMethod::MovingAverage),
                },
                qty_change,
                rate,
                timestamp,
                old(self).allow_negative_stock,
            ) is Some,
        ensures
            keys_unique(old(self).states@) ==> keys_unique(final(self).states@),
            final(self).allow_negative_stock == old(self).allow_negative_stock,
            stock_change(
                match state_of(old(self).states@, item_id@, warehouse@) {
                    Some(p) => p,
                    None => empty_stock(ValuationMethod::MovingAverage),
                },
                qty_change,
                rate,
                timestamp,
                old(self).allow_negative_stock,
            ) == Some((state_of(final(self).states@, item_id@, warehouse@).unwrap(), r)),
            forall|i: Seq<char>, w: Seq<char>|
                !(i == item_id@ && w == warehouse@) ==> #[trigger] state_of(
                    final(self).states@,
                    i,
                    w,
                ) == state_of(old(self).states@, i, w),
    {
        self.checked_update_stock(item_id, warehouse, qty_change, rate, timestamp).unwrap()
    }

    /// Sets the valuation method of an item at a warehouse, adding an empty
    /// stock valued by it if the item has none there.
    pub fn set_valuation_method(&mut self, item_id: &str, warehouse: &str, method: ValuationMethod)
        ensures
            keys_unique(old(self).states@) ==> keys_unique(final(self).states@),
            final(self).allow_negative_stock == old(self).allow_negative_stock,
            state_of(final(self).states@, item_id@, warehouse@) == Some(
                match state_of(old(self).states@, item_id@, warehouse@) {
                    Some(p) => (method, p.1, p.2, p.3),
                    None => empty_stock(method),
                },
            ),
            forall|i: Seq<char>, w: Seq<char>|
                !(i == item_id@ && w == warehouse@) ==> #[trigger] state_of(
                    final(self).states@,
                    i,
                    w,
                ) == state_of(old(self).states@, i, w),
    {
        let ghost old_states = self.states@;
        let idx = self.find_or_insert(item_id, warehouse, method);
        let ghost mid_states = self.states@;
        let mut entry = self.states.remove(idx);
        entry.state.valuation_method = method;
        self.states.insert(idx, entry);
        proof {
            assert(self.states@ =~= mid_states.update(idx as int, entry));
            if keys_unique(mid_states) {
                lemma_keys_unique_update(mid_states, idx as int, entry);
            }
            lemma_entry_index_update(mid_states, idx as int, entry);
            lemma_entry_index(old_states, item_id@, warehouse@);
            assert forall|i: Seq<char>, w: Seq<char>|
                !(i == item_id@ && w == warehouse@) implies #[trigger] state_of(
                self.states@,
                i,
                w,
            ) == state_of(old_states, i, w) by {
                lemma_entry_index_update_other(mid_states, idx as int, entry, item_id@, warehouse@, i, w);
                if entry_index(old_states, item_id@, warehouse@) < 0 {
                    lemma_entry_index_push_other(old_states, mid_states.last(), item_id@, warehouse@, i, w);
                }
            }
        }
    }
}

/// Appending an entry for a key that had none makes it the key's entry.
proof fn lemma_entry_index_push(
    entries: Seq<StockEntry>,
    e: StockEntry,
    item: Seq<char>,
    warehouse: Seq<char>,
)
    requires
        entry_index(entries, item, warehouse) < 0,
        entry_is(e, item, warehouse),
    ensures
        entry_index(entries.push(e), item, warehouse) == entries.len(),
    decreases entries.len(),
{
    if entries.len() == 0 {
    } else {
        assert(entries.push(e).drop_first() =~= entries.drop_first().push(e));
        lemma_entry_index_push(entries.drop_first(), e, item, warehouse);
    }
}

/// Appending an entry for one key leaves the entries of the other keys where they were.
proof fn lemma_entry_index_push_other(
    entries: Seq<StockEntry>,
    e: StockEntry,
    item: Seq<char>,
    warehouse: Seq<char>,
    i: Seq<char>,
    w: Seq<char>,
)
    requires
        entry_is(e, item, warehouse),
        !(i == item && w == warehouse),
    ensures
        entry_index(entries.push(e), i, w) == entry_index(entries, i, w),
        entry_index(entries, i, w) >= 0 ==> entries.push(e)[entry_index(entries, i, w)]
            == entries[entry_index(entries, i, w)],
    decreases entries.len(),
{
    lemma_entry_index(entries, i, w);
    if entries.len() == 0 {
        assert(entries.push(e).drop_first() =~= Seq::<StockEntry>::empty());
        assert(!entry_is(entries.push(e)[0], i, w));
        assert(entry_index(Seq::<StockEntry>::empty(), i, w) == -1);
        assert(entry_index(entries.push(e), i, w) == -1);
        assert(entry_index(entries, i, w) == -1);
    } else if entry_is(entries[0], i, w) {
        assert(entries.push(e)[0] == entries[0]);
        assert(entry_index(entries.push(e), i, w) == 0);
    } else {
        assert(entries.push(e)[0] == entries[0]);
        assert(entries.push(e).drop_first() =~= entries.drop_first().push(e));
        lemma_entry_index_push_other(entries.drop_first(), e, item, warehouse, i, w);
        assert(entries.push(e).len() > 0);
        assert(!entry_is(entries.push(e)[0], i, w));
    }
}

/// Replacing an entry by one with the same key keeps every key's index.
proof fn lemma_entry_index_update(entries: Seq<StockEntry>, idx: int, e: StockEntry)
    requires
        0 <= idx < entries.len(),
        e.item_id@ == entries[idx].item_id@,
        e.warehouse@ == entries[idx].warehouse@,
    ensures
        forall|i: Seq<char>, w: Seq<char>|
            #[trigger] entry_index(entries.update(idx, e), i, w) == entry_index(entries, i, w),
    decreases entries.len(),
{
    assert forall|i: Seq<char>, w: Seq<char>|
        #[trigger] entry_index(entries.update(idx, e), i, w) == entry_index(entries, i, w) by {
        lemma_entry_index_update_one(entries, idx, e, i, w);
    }
}

proof fn lemma_entry_index_update_one(
    entries: Seq<StockEntry>,
    idx: int,
    e: StockEntry,
    i: Seq<char>,
    w: Seq<char>,
)
    requires
        0 <= idx < entries.len(),
        e.item_id@ == entries[idx].item_id@,
        e.warehouse@ == entries[idx].warehouse@,
    ensures
        entry_index(entries.update(idx, e), i, w) == entry_index(entries, i, w),
    decreases entries.len(),
{
    if idx > 0 && !entry_is(entries[0], i, w) {
        assert(entries.update(idx, e).drop_first() =~= entries.drop_first().update(idx - 1, e));
        lemma_entry_index_update_one(entries.drop_first(), idx - 1, e, i, w);
    } else if idx == 0 {
        assert(entries.update(idx, e).drop_first() =~= entries.drop_first());
    }
}

/// Replacing the entry of one key leaves the states of the other keys as they were.
proof fn lemma_entry_index_update_other(
    entries: Seq<StockEntry>,
    idx: int,
    e: StockEntry,
    item: Seq<char>,
    warehouse: Seq<char>,
    i: Seq<char>,
    w: Seq<char>,
)
    requires
        0 <= idx < entries.len(),
        e.item_id@ == entries[idx].item_id@,
        e.warehouse@ == entries[idx].warehouse@,
        entry_index(entries, item, warehouse) == idx,
        !(i == item && w == warehouse),
    ensures
        state_of(entries.update(idx, e), i, w) == state_of(entries, i, w),
{
    lemma_entry_index_update_one(entries, idx, e, i, w);
    lemma_entry_index(entries, i, w);
    lemma_entry_index(entries, item, warehouse);
}

} // verus!
