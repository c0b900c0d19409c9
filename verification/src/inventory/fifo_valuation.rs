//! The backdated valuation correction engine: replays the stock entries that
//! follow a backdated entry and recomputes quantities, FIFO layers and the cost
//! of goods sold of every issue.
use vstd::prelude::*;
use crate::decimal::{
    Dec, decimal_add, decimal_mul, div_exact, exact_sum, fits_at_scale, lemma_div_exact_units,
    lemma_fits_smaller_scale, lemma_seq_max_scale, max_nat, mul_exact, o_add, o_div, pow10, seq_max_scale,
    sum_fits,
};
use crate::inventory::StockError;
use crate::inventory::stock_ledger::{
    StockParts, StockQueueNode, ValuationMethod, WarehouseStockState, checked_consume_fifo_queue,
    consume_fifo,
};
use crate::sorting::{Timed, sort_by_time, stable_sort_by_time};
use crate::time::Timestamp;

verus! {

/// An entry of the stock ledger.
#[derive(Clone, Debug)]
pub struct StockLedgerEntry {
    pub item_code: String,
    pub warehouse: String,
    pub qty_change: Dec,
    pub rate: Dec,
    pub timestamp: Timestamp,
}

impl Timed for StockLedgerEntry {
    open spec fn time_of(&self) -> Timestamp {
        self.timestamp
    }

    fn time(&self) -> (r: Timestamp) {
        self.timestamp
    }
}

/// The engine that replays ledger entries.
pub struct BackdatedCorrectionEngine;

/// One replayed entry: the state afterwards and the cost of goods sold, or the
/// error that ends the replay.  Unlike a live stock change there is no check
/// against negative stock, and a FIFO receipt re-sorts the layers by time.
pub open spec fn replay_entry(st: StockParts, e: StockLedgerEntry) -> Option<
    Result<(StockParts, Dec), StockError>,
> {
    let (method, qty, avg, queue) = st;
    match decimal_add(qty, e.qty_change) {
        None => None,
        Some(new_qty) => if !e.qty_change.is_neg() {
            match method {
                ValuationMethod::MovingAverage => {
                    let new_avg = if new_qty.is_zero_value() {
                        Some(Dec::spec_zero())
                    } else {
                        o_div(
                            o_add(decimal_mul(qty, avg), decimal_mul(e.qty_change, e.rate)),
                            Some(new_qty),
                        )
                    };
                    match new_avg {
                        Some(a) => Some(Ok(((method, new_qty, a, queue), Dec::spec_zero()))),
                        None => None,
                    }
                },
                ValuationMethod::FIFO => Some(
                    Ok(
                        (
                            (
                                method,
                                new_qty,
                                avg,
                                sort_by_time(
                                    queue.push(
                                        StockQueueNode {
                                            qty: e.qty_change,
                                            rate: e.rate,
                                            timestamp: e.timestamp,
                                        },
                                    ),
                                ),
                            ),
                            Dec::spec_zero(),
                        ),
                    ),
                ),
            }
        } else {
            let issue = e.qty_change.spec_negate();
            match method {
                ValuationMethod::MovingAverage => match decimal_mul(issue, avg) {
                    Some(c) => Some(Ok(((method, new_qty, avg, queue), c))),
                    None => None,
                },
                ValuationMethod::FIFO => match consume_fifo(queue, issue) {
                    None => None,
                    Some((q2, Ok(c))) => Some(Ok(((method, new_qty, avg, q2), c))),
                    Some((_, Err(err))) => Some(Err(err)),
                },
            }
        },
    }
}

/// The replay of the first `n` entries from `st`: the state and the cost of
/// goods sold of each entry (zero for receipts).
pub open spec fn replay(st: StockParts, entries: Seq<StockLedgerEntry>, n: nat) -> Option<
    Result<(StockParts, Seq<Dec>), StockError>,
>
    decreases n,
{
    if n == 0 {
        Some(Ok((st, Seq::empty())))
    } else {
        match replay(st, entries, (n - 1) as nat) {
            None => None,
            Some(Err(e)) => Some(Err(e)),
            Some(Ok((s, cogs))) => match replay_entry(s, entries[n - 1]) {
                None => None,
                Some(Err(e)) => Some(Err(e)),
                Some(Ok((s2, c))) => Some(Ok((s2, cogs.push(c)))),
            },
        }
    }
}

/// The quantity changes of the entries, in order.
pub open spec fn qty_changes(entries: Seq<StockLedgerEntry>) -> Seq<Dec> {
    entries.map_values(|e: StockLedgerEntry| e.qty_change)
}

/// The starting quantity followed by the changes: the amounts whose running
/// sums are the quantities held along a replay.
pub open spec fn running_quantities(start: Dec, entries: Seq<StockLedgerEntry>) -> Seq<Dec> {
    seq![start] + qty_changes(entries)
}

proof fn lemma_running_sum(start: Dec, entries: Seq<StockLedgerEntry>, k: nat)
    requires
        k <= entries.len(),
    ensures
        exact_sum(running_quantities(start, entries), k + 1) == start.units() + exact_sum(
            qty_changes(entries),
            k,
        ),
    decreases k,
{
    let qs = running_quantities(start, entries);
    if k == 0 {
        assert(exact_sum(qs, 0) == 0);
    } else {
        lemma_running_sum(start, entries, (k - 1) as nat);
        assert(qs[k as int] == qty_changes(entries)[k - 1]);
    }
}

/// A replay of the first `n` entries that succeeds gives one cost of goods
/// sold per entry, keeps the valuation method, and costs every receipt
/// (an entry whose change is not negative) nothing.
pub proof fn lemma_replay_shape(st: StockParts, entries: Seq<StockLedgerEntry>, n: nat)
    requires
        n <= entries.len(),
    ensures
        replay(st, entries, n) matches Some(Ok((s, cogs))) ==> {
            &&& cogs.len() == n
            &&& s.0 == st.0
            &&& forall|i: int|
                0 <= i < n && !(#[trigger] entries[i]).qty_change.is_neg() ==> cogs[i] == Dec::spec_zero()
        },
    decreases n,
{
    if n > 0 {
        lemma_replay_shape(st, entries, (n - 1) as nat);
    }
}

/// The recalculation keeps the valuation method, gives one cost of goods
/// sold per entry, and costs the receipts among the time-sorted entries
/// nothing.
pub proof fn lemma_recalculation_shape(initial: StockParts, entries: Seq<StockLedgerEntry>)
    ensures
        recalculation(initial, entries) matches Some(Ok((s, cogs))) ==> {
            &&& cogs.len() == entries.len()
            &&& s.0 == initial.0
            &&& forall|i: int|
                0 <= i < entries.len() && !(#[trigger] sort_by_time(entries)[i]).qty_change.is_neg() ==> cogs[i]
                    == Dec::spec_zero()
        },
{
    crate::sorting::lemma_sort_by_time(entries);
    lemma_replay_shape(initial, sort_by_time(entries), entries.len());
}

/// The recalculation: the entries sorted by time, then replayed from `initial`.
pub open spec fn recalculation(initial: StockParts, entries: Seq<StockLedgerEntry>) -> Option<
    Result<(StockParts, Seq<Dec>), StockError>,
> {
    replay(initial, sort_by_time(entries), entries.len())
}

/// A copy of a stock state.
fn copy_state(s: &WarehouseStockState) -> (r: WarehouseStockState)
    ensures
        r.parts() == s.parts(),
{
    let mut queue: Vec<StockQueueNode> = Vec::new();
    let mut i: usize = 0;
    while i < s.fifo_queue.len()
        invariant
            i <= s.fifo_queue.len(),
            queue@ == s.fifo_queue@.take(i as int),
        decreases s.fifo_queue.len() - i,
    {
        queue.push(s.fifo_queue[i]);
        proof {
            assert(queue@ =~= s.fifo_queue@.take(i + 1));
        }
        i += 1;
    }
    proof {
        assert(s.fifo_queue@.take(i as int) =~= s.fifo_queue@);
    }
    WarehouseStockState {
        valuation_method: s.valuation_method,
        qty: s.qty,
        moving_average_rate: s.moving_average_rate,
        fifo_queue: queue,
    }
}

/// Whether the moving average of a receipt of `change` at `rate` onto `qty`
/// held at `avg` is computed without loss: both values (quantity times
/// rate) are exact products, their sum fits, and the division by the new
/// quantity takes the exact path.
pub open spec fn receipt_exact(qty: Dec, avg: Dec, change: Dec, rate: Dec) -> bool {
    &&& mul_exact(qty, avg)
    &&& mul_exact(change, rate)
    &&& decimal_mul(qty, avg) is Some
    &&& decimal_mul(change, rate) is Some
    &&& fits_at_scale(
        decimal_mul(qty, avg).unwrap().units() + decimal_mul(change, rate).unwrap().units(),
        max_nat(decimal_mul(qty, avg).unwrap().scale_of(), decimal_mul(change, rate).unwrap().scale_of()),
    )
    &&& decimal_add(decimal_mul(qty, avg).unwrap(), decimal_mul(change, rate).unwrap()) is Some
    &&& decimal_add(qty, change) is Some
    &&& div_exact(
        decimal_add(decimal_mul(qty, avg).unwrap(), decimal_mul(change, rate).unwrap()).unwrap(),
        decimal_add(qty, change).unwrap(),
    )
}

/// Replays one entry on `state`.  A moving-average receipt keeps the value
/// of the stock: where computed without loss, the new rate times the new
/// quantity is the old quantity times the old rate plus the quantity
/// received times its rate.  A moving-average issue is costed at the
/// moving-average rate.
fn replay_entry_exec(state: &mut WarehouseStockState, e: &StockLedgerEntry) -> (r: Option<
    Result<Dec, StockError>,
>)
    ensures
        match replay_entry(old(state).parts(), *e) {
            None => r is None,
            Some(Err(err)) => r == Some(Err::<Dec, StockError>(err)),
            Some(Ok((s2, c))) => r == Some(Ok::<Dec, StockError>(c)) && final(state).parts() == s2,
        },
        r matches Some(Ok(_)) ==> (old(state).valuation_method == ValuationMethod::MovingAverage
            && !e.qty_change.is_neg() && receipt_exact(
            old(state).qty,
            old(state).moving_average_rate,
            e.qty_change,
            e.rate,
        ) ==> final(state).moving_average_rate.units() * final(state).qty.units() == old(state).qty.units()
            * old(state).moving_average_rate.units() + e.qty_change.units() * e.rate.units()),
        r matches Some(Ok(c)) ==> (old(state).valuation_method == ValuationMethod::MovingAverage
            && e.qty_change.is_neg() && mul_exact(e.qty_change, old(state).moving_average_rate) ==> c.units()
            * pow10(28) == -e.qty_change.units() * old(state).moving_average_rate.units()),
        r matches Some(Ok(_)) ==> (fits_at_scale(
            old(state).qty.units() + e.qty_change.units(),
            max_nat(old(state).qty.scale_of(), e.qty_change.scale_of()),
        ) ==> final(state).qty.units() == old(state).qty.units() + e.qty_change.units()
            && final(state).qty.scale_of() <= max_nat(old(state).qty.scale_of(), e.qty_change.scale_of())),
{
    let new_qty = match state.qty.checked_add(&e.qty_change) {
        Some(q) => q,
        None => {
            return None;
        },
    };
    if e.qty_change.is_sign_positive() {
        match state.valuation_method {
            ValuationMethod::MovingAverage => {
                if new_qty.is_zero() {
                    state.moving_average_rate = Dec::zero();
                } else {
                    let held = state.qty.checked_mul(&state.moving_average_rate);
                    let received = e.qty_change.checked_mul(&e.rate);
                    let value = match (held, received) {
                        (Some(h), Some(g)) => h.checked_add(&g),
                        _ => None,
                    };
                    let _ = new_qty.scale();
                    let avg = match value {
                        Some(v) => {
                            let _ = v.scale();
                            v.checked_div(&new_qty)
                        },
                        None => None,
                    };
                    proof {
                        if let (Some(h), Some(g), Some(v), Some(a)) = (held, received, value, avg) {
                            if receipt_exact(old(state).qty, old(state).moving_average_rate, e.qty_change, e.rate) {
                                lemma_div_exact_units(v, new_qty, a);
                                assert(v.units() == h.units() + g.units());
                                assert(a.units() * new_qty.units() == state.qty.units() * state.moving_average_rate.units()
                                    + e.qty_change.units() * e.rate.units()) by (nonlinear_arith)
                                    requires
                                        a.units() * new_qty.units() == v.units() * pow10(28),
                                        v.units() == h.units() + g.units(),
                                        h.units() * pow10(28) == state.qty.units() * state.moving_average_rate.units(),
                                        g.units() * pow10(28) == e.qty_change.units() * e.rate.units(),
                                ;
                            }
                        }
                    }
                    match avg {
                        Some(a) => {
                            state.moving_average_rate = a;
                        },
                        None => {
                            return None;
                        },
                    }
                }
            },
            ValuationMethod::FIFO => {
                state.fifo_queue.push(
                    StockQueueNode { qty: e.qty_change, rate: e.rate, timestamp: e.timestamp },
                );
                stable_sort_by_time(&mut state.fifo_queue);
            },
        }
        state.qty = new_qty;
        Some(Ok(Dec::zero()))
    } else {
        let issue_qty = e.qty_change.negate();
        match state.valuation_method {
            ValuationMethod::MovingAverage => {
                match issue_qty.checked_mul(&state.moving_average_rate) {
                    Some(c) => {
                        state.qty = new_qty;
                        Some(Ok(c))
                    },
                    None => None,
                }
            },
            ValuationMethod::FIFO => {
                match checked_consume_fifo_queue(&mut state.fifo_queue, issue_qty) {
                    None => None,
                    Some(Ok(c)) => {
                        state.qty = new_qty;
                        Some(Ok(c))
                    },
                    Some(Err(err)) => Some(Err(err)),
                }
            },
        }
    }
}

impl BackdatedCorrectionEngine {
    /// Recalculates stock quantities, FIFO layers and the cost of goods sold
    /// downstream of a backdated entry; `None` where a decimal operation
    /// overflows.  The entries are left sorted by time.
    pub fn checked_recalculate_valuation(
        initial_state: &WarehouseStockState,
        downstream_entries: &mut Vec<StockLedgerEntry>,
    ) -> (r: Option<Result<(WarehouseStockState, Vec<Dec>), StockError>>)
        ensures
            final(downstream_entries)@ == sort_by_time(old(downstream_entries)@),
            match recalculation(initial_state.parts(), old(downstream_entries)@) {
                None => r is None,
                Some(Err(err)) => r matches Some(Err(e2)) && e2 == err,
                Some(Ok((s, cogs))) => r matches Some(Ok((s2, c2))) && s2.parts() == s && c2@
                    == cogs,
            },
            r matches Some(Ok((s2, _))) ==> (sum_fits(
                running_quantities(initial_state.qty, sort_by_time(old(downstream_entries)@)),
            ) ==> s2.qty.units() == initial_state.qty.units() + exact_sum(
                qty_changes(sort_by_time(old(downstream_entries)@)),
                old(downstream_entries)@.len(),
            )),
    {
        let mut state = copy_state(initial_state);
        let mut recalculated_cogs: Vec<Dec> = Vec::new();
        let ghost orig = downstream_entries@;
        stable_sort_by_time(downstream_entries);
        let ghost qs = running_quantities(initial_state.qty, sort_by_time(orig));
        proof {
            crate::sorting::lemma_sort_by_time(orig);
            lemma_seq_max_scale(qs);
            lemma_running_sum(initial_state.qty, sort_by_time(orig), 0);
            assert(qs[0] == initial_state.qty);
        }
        let mut i: usize = 0;
        while i < downstream_entries.len()
            invariant
                i <= downstream_entries.len(),
                orig == old(downstream_entries)@,
                downstream_entries@ == sort_by_time(orig),
                downstream_entries@.len() == orig.len(),
                replay(initial_state.parts(), downstream_entries@, i as nat) == Some(
                    Ok::<(StockParts, Seq<Dec>), StockError>((state.parts(), recalculated_cogs@)),
                ),
                qs == running_quantities(initial_state.qty, downstream_entries@),
                sum_fits(qs) ==> state.qty.units() == exact_sum(qs, (i + 1) as nat)
                    && state.qty.scale_of() <= seq_max_scale(qs),
            decreases downstream_entries.len() - i,
        {
            proof {
                if sum_fits(qs) {
                    lemma_seq_max_scale(qs);
                    assert(qs[i + 1] == downstream_entries@[i as int].qty_change);
                    assert(fits_at_scale(exact_sum(qs, (i + 2) as nat), seq_max_scale(qs)));
                    lemma_fits_smaller_scale(
                        state.qty.units() + downstream_entries@[i as int].qty_change.units(),
                        max_nat(state.qty.scale_of(), downstream_entries@[i as int].qty_change.scale_of()),
                        seq_max_scale(qs),
                    );
                }
            }
            match replay_entry_exec(&mut state, &downstream_entries[i]) {
                None => {
                    proof {
                        lemma_replay_stops(
                            initial_state.parts(),
                            downstream_entries@,
                            (i + 1) as nat,
                            downstream_entries@.len(),
                        );
                    }
                    return None;
                },
                Some(Err(err)) => {
                    proof {
                        lemma_replay_stops(
                            initial_state.parts(),
                            downstream_entries@,
                            (i + 1) as nat,
                            downstream_entries@.len(),
                        );
                    }
                    return Some(Err(err));
                },
                Some(Ok(c)) => {
                    recalculated_cogs.push(c);
                },
            }
            i += 1;
        }
        proof {
            lemma_running_sum(initial_state.qty, downstream_entries@, downstream_entries@.len());
        }
        Some(Ok((state, recalculated_cogs)))
    }

    /// Recalculates stock quantities, FIFO layers and the cost of goods sold
    /// downstream of a backdated entry, after sorting the entries by time.
    /// Where the running quantities sum without loss, the final quantity is
    /// the initial one plus every change (see also `lemma_recalculation_shape`).
    pub fn recalculate_valuation(
        initial_state: &WarehouseStockState,
        downstream_entries: &mut Vec<StockLedgerEntry>,
    ) -> (r: Result<(WarehouseStockState, Vec<Dec>), StockError>)
        requires
            recalculation(initial_state.parts(), old(downstream_entries)@) is Some,
        ensures
            final(downstream_entries)@ == sort_by_time(old(downstream_entries)@),
            match recalculation(initial_state.parts(), old(downstream_entries)@).unwrap() {
                Err(err) => r matches Err(e2) && e2 == err,
                Ok((s, cogs)) => r matches Ok((s2, c2)) && s2.parts() == s && c2@ == cogs,
            },
            r matches Ok((s2, _)) ==> (sum_fits(
                running_quantities(initial_state.qty, sort_by_time(old(downstream_entries)@)),
            ) ==> s2.qty.units() == initial_state.qty.units() + exact_sum(
                qty_changes(sort_by_time(old(downstream_entries)@)),
                old(downstream_entries)@.len(),
            )),
    {
        Self::checked_recalculate_valuation(initial_state, downstream_entries).unwrap()
    }
}

/// Once the replay stops, by an error or an overflow, it stays stopped.
proof fn lemma_replay_stops(st: StockParts, entries: Seq<StockLedgerEntry>, k: nat, n: nat)
    requires
        k <= n,
        !(replay(st, entries, k) matches Some(Ok(_))),
    ensures
        replay(st, entries, n) == replay(st, entries, k),
    decreases n - k,
{
    if k < n {
        lemma_replay_stops(st, entries, k, (n - 1) as nat);
    }
}

} // verus!
