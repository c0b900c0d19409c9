//! Stock transfers between warehouses: the registry movements and the
//! SurrealQL that records them.
use vstd::prelude::*;
use vstd::string::StringExecFns;
use crate::decimal::{Dec, decimal_text};
use crate::inventory::StockError;
use crate::inventory::stock_ledger::{
    StockEntry, StockParts, ValuationMethod, WarehouseStockRegistry, empty_stock, keys_unique,
    state_of, stock_change,
};
use crate::ids::{is_uuid_v4_text, new_uuid_v4_text};
use crate::time::Timestamp;

verus! {

/// A command to move a quantity of an item from one warehouse to another.
#[derive(Clone, Debug)]
pub struct StockTransferCmd {
    pub source_warehouse: String,
    pub target_warehouse: String,
    pub item_id: String,
    pub qty: Dec,
    pub rate: Dec,
}

/// The record id of a transfer with the given UUID.
pub open spec fn transfer_record(uuid: Seq<char>) -> Seq<char> {
    "stock_transfer:"@ + uuid
}

/// The statements of a transfer recorded under `uuid`: the transfer event,
/// the outgoing and incoming adjustments, and the `MOVED_FROM` and `MOVED_TO` graph edges, inside
/// one transaction.
pub open spec fn transfer_queries(cmd: StockTransferCmd, uuid: Seq<char>) -> Seq<Seq<char>> {
    let t = transfer_record(uuid);
    let q = decimal_text(cmd.qty);
    seq![
        "BEGIN TRANSACTION;"@,
        "CREATE "@ + t + " SET item = "@ + cmd.item_id@ + ", qty = "@ + q + ", rate = "@ + decimal_text(
            cmd.rate,
        ) + ";"@,
        "UPDATE warehouse:"@ + cmd.source_warehouse@ + " SET inventory = inventory - "@ + q
            + " WHERE item = "@ + cmd.item_id@ + ";"@,
        "UPDATE warehouse:"@ + cmd.target_warehouse@ + " SET inventory = inventory + "@ + q
            + " WHERE item = "@ + cmd.item_id@ + ";"@,
        "RELATE "@ + t + " -> MOVED_FROM -> warehouse:"@ + cmd.source_warehouse@ + " CONTENT { qty: "@
            + q + " };"@,
        "RELATE "@ + t + " -> MOVED_TO -> warehouse:"@ + cmd.target_warehouse@ + " CONTENT { qty: "@
            + q + " };"@,
        "COMMIT TRANSACTION;"@,
    ]
}

/// The statements of a transfer recorded under the given UUID.
pub fn compile_stock_transfer_queries_with_id(cmd: &StockTransferCmd, uuid: &str) -> (r: Vec<String>)
    ensures
        r@.map_values(|s: String| s@) == transfer_queries(*cmd, uuid@),
{
    let q = cmd.qty.to_text();
    let rate = cmd.rate.to_text();
    let mut t = String::from_str("stock_transfer:");
    t.append(uuid);
    let mut create = String::from_str("CREATE ");
    create.append(t.as_str());
    create.append(" SET item = ");
    create.append(cmd.item_id.as_str());
    create.append(", qty = ");
    create.append(q.as_str());
    create.append(", rate = ");
    create.append(rate.as_str());
    create.append(";");
    let mut out_adj = String::from_str("UPDATE warehouse:");
    out_adj.append(cmd.source_warehouse.as_str());
    out_adj.append(" SET inventory = inventory - ");
    out_adj.append(q.as_str());
    out_adj.append(" WHERE item = ");
    out_adj.append(cmd.item_id.as_str());
    out_adj.append(";");
    let mut in_adj = String::from_str("UPDATE warehouse:");
    in_adj.append(cmd.target_warehouse.as_str());
    in_adj.append(" SET inventory = inventory + ");
    in_adj.append(q.as_str());
    in_adj.append(" WHERE item = ");
    in_adj.append(cmd.item_id.as_str());
    in_adj.append(";");
    let mut moved_from = String::from_str("RELATE ");
    moved_from.append(t.as_str());
    moved_from.append(" -> MOVED_FROM -> warehouse:");
    moved_from.append(cmd.source_warehouse.as_str());
    moved_from.append(" CONTENT { qty: ");
    moved_from.append(q.as_str());
    moved_from.append(" };");
    let mut moved_to = String::from_str("RELATE ");
    moved_to.append(t.as_str());
    moved_to.append(" -> MOVED_TO -> warehouse:");
    moved_to.append(cmd.target_warehouse.as_str());
    moved_to.append(" CONTENT { qty: ");
    moved_to.append(q.as_str());
    moved_to.append(" };");
    let r = vec![
        String::from_str("BEGIN TRANSACTION;"),
        create,
        out_adj,
        in_adj,
        moved_from,
        moved_to,
        String::from_str("COMMIT TRANSACTION;"),
    ];
    proof {
        assert(r@.map_values(|s: String| s@) =~= transfer_queries(*cmd, uuid@));
    }
    r
}

/// Generates the transactional SurrealQL of a stock transfer, with graph
/// relations, under a fresh random transfer id.
pub fn compile_stock_transfer_queries(cmd: &StockTransferCmd) -> (r: Vec<String>)
    ensures
        exists|uuid: Seq<char>|
            is_uuid_v4_text(uuid) && r@.map_values(|s: String| s@) == #[trigger] transfer_queries(*cmd, uuid),
{
    let uuid = new_uuid_v4_text();
    compile_stock_transfer_queries_with_id(cmd, uuid.as_str())
}

/// The transaction that records a transfer in the database: the transfer
/// event, the two inventory adjustments and the `MOVED_FROM` and `MOVED_TO`
/// edges, one statement a line.
pub open spec fn transfer_script(
    uuid: Seq<char>,
    item: Seq<char>,
    from: Seq<char>,
    to: Seq<char>,
    qty: Dec,
    rate: Dec,
) -> Seq<char> {
    let t = transfer_record(uuid);
    let q = decimal_text(qty);
    "BEGIN TRANSACTION;\nCREATE "@ + t + " SET item = '"@ + item + "', qty = "@ + q + ", rate = "@
        + decimal_text(rate) + ";\nUPDATE warehouse:"@ + from + " SET inventory = inventory - "@ + q
        + " WHERE item = '"@ + item + "';\nUPDATE warehouse:"@ + to + " SET inventory = inventory + "@
        + q + " WHERE item = '"@ + item + "';\nRELATE "@ + t + " -> MOVED_FROM -> warehouse:"@ + from
        + " CONTENT { qty: "@ + q + " };\nRELATE "@ + t + " -> MOVED_TO -> warehouse:"@ + to
        + " CONTENT { qty: "@ + q + " };\nCOMMIT TRANSACTION;"@
}

/// The database transaction of a transfer recorded under the given UUID.
pub fn transfer_script_with_id(uuid: &str, item: &str, from: &str, to: &str, qty: Dec, rate: Dec) -> (r:
    String)
    ensures
        r@ == transfer_script(uuid@, item@, from@, to@, qty, rate),
{
    let q = qty.to_text();
    let mut s = String::from_str("BEGIN TRANSACTION;\nCREATE stock_transfer:");
    s.append(uuid);
    s.append(" SET item = '");
    s.append(item);
    s.append("', qty = ");
    s.append(q.as_str());
    s.append(", rate = ");
    s.append(rate.to_text().as_str());
    s.append(";\nUPDATE warehouse:");
    s.append(from);
    s.append(" SET inventory = inventory - ");
    s.append(q.as_str());
    s.append(" WHERE item = '");
    s.append(item);
    s.append("';\nUPDATE warehouse:");
    s.append(to);
    s.append(" SET inventory = inventory + ");
    s.append(q.as_str());
    s.append(" WHERE item = '");
    s.append(item);
    s.append("';\nRELATE stock_transfer:");
    s.append(uuid);
    s.append(" -> MOVED_FROM -> warehouse:");
    s.append(from);
    s.append(" CONTENT { qty: ");
    s.append(q.as_str());
    s.append(" };\nRELATE stock_transfer:");
    s.append(uuid);
    s.append(" -> MOVED_TO -> warehouse:");
    s.append(to);
    s.append(" CONTENT { qty: ");
    s.append(q.as_str());
    s.append(" };\nCOMMIT TRANSACTION;");
    proof {
        reveal_strlit("BEGIN TRANSACTION;\nCREATE stock_transfer:");
        reveal_strlit("BEGIN TRANSACTION;\nCREATE ");
        reveal_strlit("stock_transfer:");
        reveal_strlit("';\nRELATE stock_transfer:");
        reveal_strlit("';\nRELATE ");
        reveal_strlit(" };\nRELATE stock_transfer:");
        reveal_strlit(" };\nRELATE ");
        let a = "BEGIN TRANSACTION;\nCREATE "@;
        let b = "stock_transfer:"@;
        assert("BEGIN TRANSACTION;\nCREATE stock_transfer:"@ =~= a + b);
        assert("';\nRELATE stock_transfer:"@ =~= "';\nRELATE "@ + b);
        assert(" };\nRELATE stock_transfer:"@ =~= " };\nRELATE "@ + b);
        assert(s@ =~= transfer_script(uuid@, item@, from@, to@, qty, rate));
    }
    s
}

/// The stock of `item` at `warehouse`, empty (by moving average) where none is held.
pub open spec fn stock_or_empty(entries: Seq<StockEntry>, item: Seq<char>, warehouse: Seq<char>) -> StockParts {
    match state_of(entries, item, warehouse) {
        Some(p) => p,
        None => empty_stock(ValuationMethod::MovingAverage),
    }
}

impl WarehouseStockRegistry {
    /// Moves `qty` of `item` from one warehouse to another at `rate`: the
    /// source is issued `qty` first, and only where that succeeds the target
    /// receives it.  A refused issue keeps the source's method, quantity and
    /// rate (a moving-average stock wholly) and touches no other stock.
    /// `None` where a decimal operation overflows.
    pub fn checked_apply_transfer(
        &mut self,
        item: &str,
        from_warehouse: &str,
        to_warehouse: &str,
        qty: Dec,
        rate: Dec,
        timestamp: Timestamp,
    ) -> (r: Option<Result<(), StockError>>)
        ensures
            final(self).allow_negative_stock == old(self).allow_negative_stock,
            keys_unique(old(self).states@) ==> keys_unique(final(self).states@),
            ({
                let first = stock_change(
                    stock_or_empty(old(self).states@, item@, from_warehouse@),
                    qty.spec_negate(),
                    rate,
                    timestamp,
                    old(self).allow_negative_stock,
                );
                match first {
                    None => r is None,
                    Some((s1, Err(e))) => {
                        &&& r == Some(Err::<(), StockError>(e))
                        &&& state_of(final(self).states@, item@, from_warehouse@) == Some(s1)
                        &&& to_warehouse@ != from_warehouse@ ==> state_of(
                            final(self).states@,
                            item@,
                            to_warehouse@,
                        ) == state_of(old(self).states@, item@, to_warehouse@)
                        &&& ({
                            let b = stock_or_empty(old(self).states@, item@, from_warehouse@);
                            &&& s1.0 == b.0 && s1.1 == b.1 && s1.2 == b.2
                            &&& b.0 == ValuationMethod::MovingAverage ==> s1 == b
                        })
                    },
                    Some((s1, Ok(_))) => {
                        let before_to = if to_warehouse@ == from_warehouse@ {
                            s1
                        } else {
                            stock_or_empty(old(self).states@, item@, to_warehouse@)
                        };
                        match stock_change(before_to, qty, rate, timestamp, old(self).allow_negative_stock) {
                            None => r is None,
                            Some((s2, res)) => {
                                &&& r == Some(
                                    match res {
                                        Ok(_) => Ok::<(), StockError>(()),
                                        Err(e) => Err(e),
                                    },
                                )
                                &&& state_of(final(self).states@, item@, to_warehouse@) == Some(s2)
                                &&& to_warehouse@ != from_warehouse@ ==> state_of(
                                    final(self).states@,
                                    item@,
                                    from_warehouse@,
                                ) == Some(s1)
                            },
                        }
                    },
                }
            }),
            r is Some ==> forall|i: Seq<char>, w: Seq<char>|
                !(i == item@ && (w == from_warehouse@ || w == to_warehouse@)) ==> #[trigger] state_of(
                    final(self).states@,
                    i,
                    w,
                ) == state_of(old(self).states@, i, w),
    {
        let ghost before = self.states@;
        let out = self.checked_update_stock(item, from_warehouse, qty.negate(), rate, timestamp);
        let ghost mid = self.states@;
        match out {
            None => None,
            Some(Err(e)) => Some(Err(e)),
            Some(Ok(_)) => {
                proof {
                    if to_warehouse@ != from_warehouse@ {
                        assert(state_of(mid, item@, to_warehouse@) == state_of(before, item@, to_warehouse@));
                    }
                }
                let inn = self.checked_update_stock(item, to_warehouse, qty, rate, timestamp);
                proof {
                    if to_warehouse@ != from_warehouse@ && inn is Some {
                        assert(state_of(self.states@, item@, from_warehouse@) == state_of(mid, item@, from_warehouse@));
                    }
                }
                match inn {
                    None => None,
                    Some(Err(e)) => Some(Err(e)),
                    Some(Ok(_)) => Some(Ok(())),
                }
            },
        }
    }
}

} // verus!
