//! The chart of accounts as a tree, and balance roll-ups from leaf accounts
//! to their composite parents.
use vstd::prelude::*;
use crate::decimal::{Dec, decimal_add, fits_at_scale, max_nat};
use crate::maps::{DecimalMap, assoc_get, insert_all, lemma_insert_all_concat, lemma_insert_all_push, lemma_map_insert};
use crate::text::{chars_contain, contains_text, lowercase_text, str_chars, to_lowercase};
use vstd::string::StringExecFns;

verus! {

/// An account of the chart of accounts, with its sub-accounts.
#[derive(Debug)]
pub struct AccountNode {
    pub account_id: String,
    pub parent_id: Option<String>,
    pub children: Vec<AccountNode>,
}

/// An account as stored: its id, its parent's id and its own balance.
#[derive(Clone, Debug)]
pub struct AccountRecord {
    pub id: String,
    pub parent: Option<String>,
    pub name: String,
    pub balance: Dec,
}

/// The ledger balance of an account, zero where the ledger has none.
pub open spec fn own_balance(ledger: Seq<(Seq<char>, Dec)>, id: Seq<char>) -> Dec {
    match assoc_get(ledger, id) {
        Some(b) => b,
        None => Dec::spec_zero(),
    }
}

/// The own balance of `node` plus the roll-ups of its first `k` children, with
/// the balances recorded for those children's subtrees.
pub open spec fn rollup_children(node: AccountNode, ledger: Seq<(Seq<char>, Dec)>, k: nat) -> Option<
    (Dec, Seq<(Seq<char>, Dec)>),
>
    decreases node, 0nat, k,
{
    if k == 0 {
        Some((own_balance(ledger, node.account_id@), Seq::empty()))
    } else if k > node.children.len() {
        None
    } else {
        let child = node.children@[k - 1];
        proof {
            assert(decreases_to!(node => node.children));
            assert(decreases_to!(node.children => node.children@));
            assert(decreases_to!(node.children@ => node.children@[k - 1]));
        }
        match (rollup_children(node, ledger, (k - 1) as nat), rollup(child, ledger)) {
            (Some((t, ps)), Some((ct, cps))) => match decimal_add(t, ct) {
                Some(t2) => Some((t2, ps + cps)),
                None => None,
            },
            _ => None,
        }
    }
}

/// The balance of an account, its own balance plus the balances of its
/// children, with the balances recorded for its subtree: each child's
/// subtree in turn, then the account itself.
pub open spec fn rollup(node: AccountNode, ledger: Seq<(Seq<char>, Dec)>) -> Option<
    (Dec, Seq<(Seq<char>, Dec)>),
>
    decreases node, 1nat, 0nat,
{
    match rollup_children(node, ledger, node.children@.len()) {
        Some((t, ps)) => Some((t, ps.push((node.account_id@, t)))),
        None => None,
    }
}

/// Whether adding each of the first `k` children's balances to the running
/// balance of `node` can be done exactly.
pub open spec fn children_fit(node: AccountNode, ledger: Seq<(Seq<char>, Dec)>, k: nat) -> bool
    decreases k,
{
    if k == 0 || k > node.children@.len() {
        true
    } else {
        &&& children_fit(node, ledger, (k - 1) as nat)
        &&& match (rollup_children(node, ledger, (k - 1) as nat), rollup(node.children@[k - 1], ledger)) {
            (Some(x), Some(c)) => fits_at_scale(
                x.0.units() + c.0.units(),
                max_nat(x.0.scale_of(), c.0.scale_of()),
            ),
            _ => true,
        }
    }
}

/// The sum, in units of 10^-28, of the rolled-up balances of the first `k`
/// children of `node`.
pub open spec fn children_total(node: AccountNode, ledger: Seq<(Seq<char>, Dec)>, k: nat) -> int
    decreases k,
{
    if k == 0 || k > node.children@.len() {
        0
    } else {
        children_total(node, ledger, (k - 1) as nat) + match rollup(node.children@[k - 1], ledger) {
            Some(c) => c.0.units(),
            None => 0,
        }
    }
}

proof fn lemma_rollup_children_stay_none(
    node: AccountNode,
    ledger: Seq<(Seq<char>, Dec)>,
    k: nat,
    n: nat,
)
    requires
        k <= n <= node.children@.len(),
        rollup_children(node, ledger, k) is None,
    ensures
        rollup_children(node, ledger, n) is None,
    decreases n - k,
{
    if k < n {
        lemma_rollup_children_stay_none(node, ledger, k, (n - 1) as nat);
    }
}

/// Rolls up the balance of `node` from the ledger, recording in
/// `balance_tree` the balance of every account of its subtree; `None` where a
/// sum overflows.
pub fn checked_calculate_composite_balance(
    node: &AccountNode,
    ledger_data: &DecimalMap,
    balance_tree: &mut DecimalMap,
) -> (r: Option<Dec>)
    ensures
        r == (match rollup(*node, ledger_data.pairs()) {
            Some(x) => Some(x.0),
            None => None,
        }),
        r is Some ==> final(balance_tree).pairs() == insert_all(
            old(balance_tree).pairs(),
            rollup(*node, ledger_data.pairs()).unwrap().1,
        ),
        r matches Some(t) ==> (children_fit(*node, ledger_data.pairs(), node.children@.len()) ==> t.units()
            == own_balance(ledger_data.pairs(), node.account_id@).units() + children_total(
            *node,
            ledger_data.pairs(),
            node.children@.len(),
        )),
    decreases node,
{
    let mut total = match ledger_data.get(node.account_id.as_str()) {
        Some(b) => b,
        None => Dec::zero(),
    };
    let ghost ledger = ledger_data.pairs();
    let ghost start = balance_tree.pairs();
    let mut k: usize = 0;
    while k < node.children.len()
        invariant
            k <= node.children.len(),
            ledger == ledger_data.pairs(),
            rollup_children(*node, ledger, k as nat) matches Some(x) && x.0 == total
                && balance_tree.pairs() == insert_all(start, x.1),
            children_fit(*node, ledger, k as nat) ==> total.units() == own_balance(ledger, node.account_id@).units()
                + children_total(*node, ledger, k as nat),
        decreases node.children.len() - k,
    {
        let child = &node.children[k];
        proof {
            assert(decreases_to!(*node => node.children));
            assert(decreases_to!(node.children => node.children@));
            assert(decreases_to!(node.children@ => node.children@[k as int]));
        }
        let ghost before = balance_tree.pairs();
        let ghost ps = rollup_children(*node, ledger, k as nat).unwrap().1;
        match checked_calculate_composite_balance(child, ledger_data, balance_tree) {
            None => {
                proof {
                    lemma_rollup_children_stay_none(*node, ledger, (k + 1) as nat, node.children@.len());
                }
                return None;
            },
            Some(ct) => {
                match total.checked_add(&ct) {
                    None => {
                        proof {
                            lemma_rollup_children_stay_none(
                                *node,
                                ledger,
                                (k + 1) as nat,
                                node.children@.len(),
                            );
                        }
                        return None;
                    },
                    Some(t2) => {
                        proof {
                            let cps = rollup(*child, ledger).unwrap().1;
                            lemma_insert_all_concat(start, ps, cps);
                        }
                        total = t2;
                    },
                }
            },
        }
        k += 1;
    }
    let ghost ps = rollup_children(*node, ledger, k as nat).unwrap().1;
    balance_tree.insert(node.account_id.clone(), total);
    proof {
        lemma_insert_all_push(start, ps, (node.account_id@, total));
    }
    Some(total)
}

/// Recursively calculates and rolls up balances from leaf accounts to parent
/// composite accounts: an account's balance is its own balance plus the sum of
/// its children's balances (exactly so where each addition fits).  Every
/// account of the subtree gets its balance in `balance_tree`, `node` last.
pub fn calculate_composite_balance(
    node: &AccountNode,
    ledger_data: &DecimalMap,
    balance_tree: &mut DecimalMap,
) -> (r: Dec)
    requires
        rollup(*node, ledger_data.pairs()) is Some,
    ensures
        rollup(*node, ledger_data.pairs()) matches Some(x) && x.0 == r && final(balance_tree).pairs()
            == insert_all(old(balance_tree).pairs(), x.1),
        final(balance_tree).spec_get(node.account_id@) == Some(r),
        children_fit(*node, ledger_data.pairs(), node.children@.len()) ==> r.units() == own_balance(
            ledger_data.pairs(),
            node.account_id@,
        ).units() + children_total(*node, ledger_data.pairs(), node.children@.len()),
{
    let r = checked_calculate_composite_balance(node, ledger_data, balance_tree).unwrap();
    proof {
        let x = rollup(*node, ledger_data.pairs()).unwrap();
        let ps = rollup_children(*node, ledger_data.pairs(), node.children@.len()).unwrap().1;
        assert(x.1 == ps.push((node.account_id@, r)));
        lemma_insert_all_push(old(balance_tree).pairs(), ps, (node.account_id@, r));
        lemma_map_insert(insert_all(old(balance_tree).pairs(), ps), node.account_id@, r);
    }
    r
}

/// The SurrealQL query that fetches the chart of accounts.
pub fn generate_coa_recursive_query() -> (r: &'static str)
    ensures
        r@ == "SELECT id, parent, name, balance FROM account FETCH parent;"@,
{
    "SELECT id, parent, name, balance FROM account FETCH parent;"
}

/// Whether record `r` names `id` as its parent.
pub open spec fn is_child_of(r: AccountRecord, id: Seq<char>) -> bool {
    r.parent matches Some(p) && p@ == id
}

/// The records among the first `k` whose parent is `id`, in order.
pub open spec fn kids(records: Seq<AccountRecord>, id: Seq<char>, k: nat) -> Seq<AccountRecord>
    decreases k,
{
    if k == 0 || k > records.len() {
        Seq::empty()
    } else if is_child_of(records[k - 1], id) {
        kids(records, id, (k - 1) as nat).push(records[k - 1])
    } else {
        kids(records, id, (k - 1) as nat)
    }
}

/// The records whose parent is `id`, in order.
pub open spec fn child_records(records: Seq<AccountRecord>, id: Seq<char>) -> Seq<AccountRecord> {
    kids(records, id, records.len())
}

/// Whether some record has the id `id`.
pub open spec fn has_record(records: Seq<AccountRecord>, id: Seq<char>) -> bool {
    exists|j: int| 0 <= j < records.len() && #[trigger] records[j].id@ == id
}

/// Whether a record is a root of the tree: it has no parent, or its parent
/// is not among the records.
pub open spec fn is_root(records: Seq<AccountRecord>, r: AccountRecord) -> bool {
    match r.parent {
        None => true,
        Some(p) => !has_record(records, p@),
    }
}

/// The roots among the first `k` records, in order.
pub open spec fn roots_of(records: Seq<AccountRecord>, k: nat) -> Seq<AccountRecord>
    decreases k,
{
    if k == 0 || k > records.len() {
        Seq::empty()
    } else if is_root(records, records[k - 1]) {
        roots_of(records, (k - 1) as nat).push(records[k - 1])
    } else {
        roots_of(records, (k - 1) as nat)
    }
}

/// Whether the subtree of `rec` is at most `depth` levels deep, so that
/// building it ends.
pub open spec fn can_build(records: Seq<AccountRecord>, rec: AccountRecord, depth: nat) -> bool
    decreases depth,
{
    depth > 0 && forall|i: int|
        0 <= i < child_records(records, rec.id@).len() ==> can_build(
            records,
            #[trigger] child_records(records, rec.id@)[i],
            (depth - 1) as nat,
        )
}

/// Whether `node` is the tree built for `rec`: its id and parent, and for
/// each record whose parent is `rec`, in order, the tree built for it.
pub open spec fn built(records: Seq<AccountRecord>, rec: AccountRecord, node: AccountNode, depth: nat) -> bool
    decreases depth,
{
    &&& depth > 0
    &&& node.account_id == rec.id
    &&& node.parent_id == rec.parent
    &&& node.children@.len() == child_records(records, rec.id@).len()
    &&& forall|i: int|
        0 <= i < node.children@.len() ==> built(
            records,
            child_records(records, rec.id@)[i],
            #[trigger] node.children@[i],
            (depth - 1) as nat,
        )
}

/// Whether `roots` is the forest built from `records`: a tree for each root
/// record, in order.
pub open spec fn forest_built(records: Seq<AccountRecord>, roots: Seq<AccountNode>) -> bool {
    &&& roots.len() == roots_of(records, records.len()).len()
    &&& forall|i: int|
        0 <= i < roots.len() ==> built(
            records,
            roots_of(records, records.len())[i],
            #[trigger] roots[i],
            records.len(),
        )
}

proof fn lemma_kids_prefix(records: Seq<AccountRecord>, id: Seq<char>, j: nat, n: nat)
    requires
        j <= n <= records.len(),
    ensures
        kids(records, id, j).len() <= kids(records, id, n).len(),
        forall|i: int| 0 <= i < kids(records, id, j).len() ==> #[trigger] kids(records, id, j)[i] == kids(records, id, n)[i],
    decreases n - j,
{
    if j < n {
        lemma_kids_prefix(records, id, j, (n - 1) as nat);
    }
}

proof fn lemma_roots_prefix(records: Seq<AccountRecord>, j: nat, n: nat)
    requires
        j <= n <= records.len(),
    ensures
        roots_of(records, j).len() <= roots_of(records, n).len(),
        forall|i: int| 0 <= i < roots_of(records, j).len() ==> #[trigger] roots_of(records, j)[i] == roots_of(records, n)[i],
    decreases n - j,
{
    if j < n {
        lemma_roots_prefix(records, j, (n - 1) as nat);
    }
}

fn clone_opt(s: &Option<String>) -> (r: Option<String>)
    ensures
        r == *s,
{
    match s {
        Some(x) => Some(x.clone()),
        None => None,
    }
}

fn build_node(records: &[AccountRecord], rec: &AccountRecord, depth: usize) -> (r: AccountNode)
    requires
        can_build(records@, *rec, depth as nat),
    ensures
        built(records@, *rec, r, depth as nat),
    decreases depth,
{
    let ghost cr = child_records(records@, rec.id@);
    let mut children: Vec<AccountNode> = Vec::new();
    let mut j: usize = 0;
    while j < records.len()
        invariant
            j <= records.len(),
            depth > 0,
            cr == child_records(records@, rec.id@),
            forall|i: int| 0 <= i < cr.len() ==> can_build(records@, #[trigger] cr[i], (depth - 1) as nat),
            children@.len() == kids(records@, rec.id@, j as nat).len(),
            forall|i: int|
                0 <= i < children@.len() ==> built(
                    records@,
                    kids(records@, rec.id@, j as nat)[i],
                    #[trigger] children@[i],
                    (depth - 1) as nat,
                ),
        decreases records.len() - j,
    {
        let r = &records[j];
        let is_child = match &r.parent {
            Some(p) => *p == rec.id,
            None => false,
        };
        proof {
            lemma_kids_prefix(records@, rec.id@, (j + 1) as nat, records@.len());
        }
        if is_child {
            proof {
                assert(kids(records@, rec.id@, (j + 1) as nat) == kids(records@, rec.id@, j as nat).push(
                    records@[j as int],
                ));
                let idx = kids(records@, rec.id@, j as nat).len() as int;
                assert(kids(records@, rec.id@, (j + 1) as nat)[idx] == cr[idx]);
            }
            let child = build_node(records, r, depth - 1);
            children.push(child);
        }
        j += 1;
    }
    AccountNode { account_id: rec.id.clone(), parent_id: clone_opt(&rec.parent), children }
}

fn has_id(records: &[AccountRecord], id: &String) -> (r: bool)
    ensures
        r == has_record(records@, id@),
{
    let mut j: usize = 0;
    while j < records.len()
        invariant
            j <= records.len(),
            forall|k: int| 0 <= k < j ==> records@[k].id@ != id@,
        decreases records.len() - j,
    {
        if records[j].id == *id {
            return true;
        }
        j += 1;
    }
    false
}

fn can_build_exec(records: &[AccountRecord], rec: &AccountRecord, depth: usize) -> (r: bool)
    ensures
        r == can_build(records@, *rec, depth as nat),
    decreases depth,
{
    if depth == 0 {
        return false;
    }
    let ghost cr = child_records(records@, rec.id@);
    let mut j: usize = 0;
    while j < records.len()
        invariant
            j <= records.len(),
            depth > 0,
            cr == child_records(records@, rec.id@),
            forall|i: int|
                0 <= i < kids(records@, rec.id@, j as nat).len() ==> can_build(
                    records@,
                    #[trigger] kids(records@, rec.id@, j as nat)[i],
                    (depth - 1) as nat,
                ),
        decreases records.len() - j,
    {
        let r = &records[j];
        let is_child = match &r.parent {
            Some(p) => *p == rec.id,
            None => false,
        };
        proof {
            lemma_kids_prefix(records@, rec.id@, (j + 1) as nat, records@.len());
        }
        if is_child {
            proof {
                let idx = kids(records@, rec.id@, j as nat).len() as int;
                assert(kids(records@, rec.id@, (j + 1) as nat)[idx] == cr[idx]);
            }
            if !can_build_exec(records, r, depth - 1) {
                return false;
            }
            proof {
                assert(kids(records@, rec.id@, (j + 1) as nat) == kids(records@, rec.id@, j as nat).push(
                    records@[j as int],
                ));
            }
        } else {
            proof {
                assert(kids(records@, rec.id@, (j + 1) as nat) == kids(records@, rec.id@, j as nat));
            }
        }
        j += 1;
    }
    true
}

/// Whether no chain of parents among the records is longer than their
/// number, so that `build_account_tree` ends on them.
pub fn builds_finitely(records: &[AccountRecord]) -> (r: bool)
    ensures
        r == (forall|i: int|
            0 <= i < records.len() && #[trigger] is_root(records@, records@[i]) ==> can_build(
                records@,
                records@[i],
                records.len() as nat,
            )),
{
    let mut j: usize = 0;
    while j < records.len()
        invariant
            j <= records.len(),
            forall|i: int|
                0 <= i < j && #[trigger] is_root(records@, records@[i]) ==> can_build(
                    records@,
                    records@[i],
                    records.len() as nat,
                ),
        decreases records.len() - j,
    {
        let r = &records[j];
        let root = match &r.parent {
            None => true,
            Some(p) => !has_id(records, p),
        };
        if root && !can_build_exec(records, r, records.len()) {
            proof {
                assert(is_root(records@, records@[j as int]));
            }
            return false;
        }
        j += 1;
    }
    true
}

/// Constructs the trees of accounts from a flat list of records: a tree for
/// each record without a parent, or whose parent is not among the records,
/// in the order of the records; under each account, its children in the
/// order of the records.  The records must not make a chain of parents
/// longer than their number (such a chain runs in a circle, and the
/// construction would not end).
pub fn build_account_tree(records: &[AccountRecord]) -> (r: Vec<AccountNode>)
    requires
        forall|i: int|
            0 <= i < records.len() && #[trigger] is_root(records@, records@[i]) ==> can_build(
                records@,
                records@[i],
                records.len() as nat,
            ),
    ensures
        forest_built(records@, r@),
{
    let ghost n = records@.len();
    let mut roots: Vec<AccountNode> = Vec::new();
    let mut j: usize = 0;
    while j < records.len()
        invariant
            j <= records.len(),
            n == records@.len(),
            forall|i: int|
                0 <= i < records.len() && #[trigger] is_root(records@, records@[i]) ==> can_build(
                    records@,
                    records@[i],
                    records.len() as nat,
                ),
            roots@.len() == roots_of(records@, j as nat).len(),
            forall|i: int|
                0 <= i < roots@.len() ==> built(
                    records@,
                    roots_of(records@, j as nat)[i],
                    #[trigger] roots@[i],
                    n,
                ),
        decreases records.len() - j,
    {
        let r = &records[j];
        let root = match &r.parent {
            None => true,
            Some(p) => !has_id(records, p),
        };
        proof {
            lemma_roots_prefix(records@, j as nat, (j + 1) as nat);
        }
        if root {
            proof {
                assert(is_root(records@, records@[j as int]));
            }
            let node = build_node(records, r, records.len());
            roots.push(node);
        }
        j += 1;
    }
    roots
}

/// The side of the balance sheet that a root account belongs to.
#[derive(Clone, Copy, Debug, PartialEq, Eq, Structural)]
pub enum SheetSide {
    Asset,
    Liability,
    Equity,
    Unclassified,
}

/// The side of a root account, by its lowercase id: one that contains
/// `asset` is an asset, else `liability` a liability, else `equity` equity.
pub open spec fn side_of(id: Seq<char>) -> SheetSide {
    let l = lowercase_text(id);
    if contains_text(l, "asset"@) {
        SheetSide::Asset
    } else if contains_text(l, "liability"@) {
        SheetSide::Liability
    } else if contains_text(l, "equity"@) {
        SheetSide::Equity
    } else {
        SheetSide::Unclassified
    }
}

/// The side of a root account.
pub fn side_of_account(id: &str) -> (r: SheetSide)
    ensures
        r == side_of(id@),
{
    let lower = to_lowercase(id);
    let l = str_chars(lower.as_str());
    let asset = str_chars("asset");
    let liability = str_chars("liability");
    let equity = str_chars("equity");
    if chars_contain(&l, &asset) {
        SheetSide::Asset
    } else if chars_contain(&l, &liability) {
        SheetSide::Liability
    } else if chars_contain(&l, &equity) {
        SheetSide::Equity
    } else {
        SheetSide::Unclassified
    }
}

/// A balance sheet: the totals of the asset, liability and equity roots, and
/// the balance of every account.
#[derive(Clone, Debug)]
pub struct BalanceSheetReport {
    pub assets: Dec,
    pub liabilities: Dec,
    pub equity: Dec,
    pub balance_tree: DecimalMap,
}

/// Each record's id and balance, in the order of the records.
pub open spec fn record_balances(records: Seq<AccountRecord>) -> Seq<(Seq<char>, Dec)> {
    records.map_values(|r: AccountRecord| (r.id@, r.balance))
}

/// The ledger of the records: the map of each record's id to its balance (a
/// later record of the same id overrides an earlier one).
pub open spec fn ledger_of(records: Seq<AccountRecord>) -> Seq<(Seq<char>, Dec)> {
    insert_all(Seq::empty(), record_balances(records))
}

/// The totals by side, and the balances recorded, after rolling up the first
/// `k` roots.
pub open spec fn sheet_totals(roots: Seq<AccountNode>, ledger: Seq<(Seq<char>, Dec)>, k: nat) -> Option<
    (Dec, Dec, Dec, Seq<(Seq<char>, Dec)>),
>
    decreases k,
{
    if k == 0 {
        Some((Dec::spec_zero(), Dec::spec_zero(), Dec::spec_zero(), Seq::empty()))
    } else {
        match (sheet_totals(roots, ledger, (k - 1) as nat), rollup(roots[k - 1], ledger)) {
            (Some((a, l, e, ps)), Some((t, rps))) => {
                let ps2 = ps + rps;
                match side_of(roots[k - 1].account_id@) {
                    SheetSide::Asset => match decimal_add(a, t) {
                        Some(a2) => Some((a2, l, e, ps2)),
                        None => None,
                    },
                    SheetSide::Liability => match decimal_add(l, t) {
                        Some(l2) => Some((a, l2, e, ps2)),
                        None => None,
                    },
                    SheetSide::Equity => match decimal_add(e, t) {
                        Some(e2) => Some((a, l, e2, ps2)),
                        None => None,
                    },
                    SheetSide::Unclassified => Some((a, l, e, ps2)),
                }
            },
            _ => None,
        }
    }
}

/// The sum, in units of 10^-28, of the rolled-up balances of those among the
/// first `k` roots whose ids name `side`.
pub open spec fn side_total(roots: Seq<AccountNode>, ledger: Seq<(Seq<char>, Dec)>, side: SheetSide, k: nat) -> int
    decreases k,
{
    if k == 0 || k > roots.len() {
        0
    } else {
        side_total(roots, ledger, side, (k - 1) as nat) + if side_of(roots[k - 1].account_id@) == side {
            match rollup(roots[k - 1], ledger) {
                Some(x) => x.0.units(),
                None => 0,
            }
        } else {
            0
        }
    }
}

/// Whether adding each of the first `k` roots' balances to the total of its
/// side can be done exactly.
pub open spec fn sheet_fits(roots: Seq<AccountNode>, ledger: Seq<(Seq<char>, Dec)>, k: nat) -> bool
    decreases k,
{
    if k == 0 || k > roots.len() {
        true
    } else {
        &&& sheet_fits(roots, ledger, (k - 1) as nat)
        &&& match (sheet_totals(roots, ledger, (k - 1) as nat), rollup(roots[k - 1], ledger)) {
            (Some((a, l, e, _)), Some((t, _))) => match side_of(roots[k - 1].account_id@) {
                SheetSide::Asset => fits_at_scale(a.units() + t.units(), max_nat(a.scale_of(), t.scale_of())),
                SheetSide::Liability => fits_at_scale(l.units() + t.units(), max_nat(l.scale_of(), t.scale_of())),
                SheetSide::Equity => fits_at_scale(e.units() + t.units(), max_nat(e.scale_of(), t.scale_of())),
                SheetSide::Unclassified => true,
            },
            _ => true,
        }
    }
}

/// Whether `rep` is the balance sheet of the roots over the ledger.
pub open spec fn is_sheet(rep: BalanceSheetReport, roots: Seq<AccountNode>, ledger: Seq<(Seq<char>, Dec)>) -> bool {
    sheet_totals(roots, ledger, roots.len()) matches Some((a, l, e, ps)) && rep.assets == a
        && rep.liabilities == l && rep.equity == e && rep.balance_tree.pairs() == insert_all(
        Seq::empty(),
        ps,
    )
}

impl BalanceSheetReport {
    /// The balance sheet of the trees `roots` over `ledger_data`: each root
    /// is rolled up, and its balance added to the side its id names; `None`
    /// where a sum overflows.
    pub fn from_roots(roots: &[AccountNode], ledger_data: &DecimalMap) -> (r: Option<BalanceSheetReport>)
        ensures
            match r {
                Some(rep) => is_sheet(rep, roots@, ledger_data.pairs()),
                None => sheet_totals(roots@, ledger_data.pairs(), roots@.len()) is None,
            },
            r matches Some(rep) ==> (sheet_fits(roots@, ledger_data.pairs(), roots@.len()) ==> {
                &&& rep.assets.units() == side_total(roots@, ledger_data.pairs(), SheetSide::Asset, roots@.len())
                &&& rep.liabilities.units() == side_total(
                    roots@,
                    ledger_data.pairs(),
                    SheetSide::Liability,
                    roots@.len(),
                )
                &&& rep.equity.units() == side_total(roots@, ledger_data.pairs(), SheetSide::Equity, roots@.len())
            }),
    {
        proof {
            Dec::lemma_zero_units();
        }
        let ghost ledger = ledger_data.pairs();
        let mut tree = DecimalMap::new();
        let mut assets = Dec::zero();
        let mut liabilities = Dec::zero();
        let mut equity = Dec::zero();
        let mut k: usize = 0;
        while k < roots.len()
            invariant
                k <= roots.len(),
                ledger == ledger_data.pairs(),
                sheet_totals(roots@, ledger, k as nat) matches Some((a, l, e, ps)) && a == assets
                    && l == liabilities && e == equity && tree.pairs() == insert_all(Seq::empty(), ps),
                sheet_fits(roots@, ledger, k as nat) ==> {
                    &&& assets.units() == side_total(roots@, ledger, SheetSide::Asset, k as nat)
                    &&& liabilities.units() == side_total(roots@, ledger, SheetSide::Liability, k as nat)
                    &&& equity.units() == side_total(roots@, ledger, SheetSide::Equity, k as nat)
                },
            decreases roots.len() - k,
        {
            let root = &roots[k];
            let ghost before = tree.pairs();
            let ghost ps = sheet_totals(roots@, ledger, k as nat).unwrap().3;
            let total = match checked_calculate_composite_balance(root, ledger_data, &mut tree) {
                Some(t) => t,
                None => {
                    proof {
                        assert(sheet_totals(roots@, ledger, (k + 1) as nat) is None);
                        lemma_sheet_totals_stay_none(roots@, ledger, (k + 1) as nat, roots@.len());
                    }
                    return None;
                },
            };
            let side = side_of_account(root.account_id.as_str());
            let ok = match side {
                SheetSide::Asset => match assets.checked_add(&total) {
                    Some(a) => {
                        assets = a;
                        true
                    },
                    None => false,
                },
                SheetSide::Liability => match liabilities.checked_add(&total) {
                    Some(l) => {
                        liabilities = l;
                        true
                    },
                    None => false,
                },
                SheetSide::Equity => match equity.checked_add(&total) {
                    Some(e) => {
                        equity = e;
                        true
                    },
                    None => false,
                },
                SheetSide::Unclassified => true,
            };
            proof {
                if ok {
                    lemma_insert_all_concat(Seq::empty(), ps, rollup(roots@[k as int], ledger).unwrap().1);
                }
            }
            if !ok {
                proof {
                    assert(sheet_totals(roots@, ledger, (k + 1) as nat) is None);
                    lemma_sheet_totals_stay_none(roots@, ledger, (k + 1) as nat, roots@.len());
                }
                return None;
            }
            k += 1;
        }
        Some(BalanceSheetReport { assets, liabilities, equity, balance_tree: tree })
    }

    /// The balance sheet of stored account records: the records are built
    /// into trees, their balances form the ledger, and the trees are rolled
    /// up as `from_roots` does.
    pub fn from_records(records: &[AccountRecord]) -> (r: Option<BalanceSheetReport>)
        requires
            forall|i: int|
                0 <= i < records.len() && #[trigger] is_root(records@, records@[i]) ==> can_build(
                    records@,
                    records@[i],
                    records.len() as nat,
                ),
        ensures
            exists|roots: Seq<AccountNode>|
                #[trigger] forest_built(records@, roots) && match r {
                    Some(rep) => is_sheet(rep, roots, ledger_of(records@)) && (sheet_fits(
                        roots,
                        ledger_of(records@),
                        roots.len(),
                    ) ==> {
                        &&& rep.assets.units() == side_total(roots, ledger_of(records@), SheetSide::Asset, roots.len())
                        &&& rep.liabilities.units() == side_total(
                            roots,
                            ledger_of(records@),
                            SheetSide::Liability,
                            roots.len(),
                        )
                        &&& rep.equity.units() == side_total(
                            roots,
                            ledger_of(records@),
                            SheetSide::Equity,
                            roots.len(),
                        )
                    }),
                    None => sheet_totals(roots, ledger_of(records@), roots.len()) is None,
                },
    {
        let roots = build_account_tree(records);
        let mut ledger = DecimalMap::new();
        let mut j: usize = 0;
        while j < records.len()
            invariant
                j <= records.len(),
                ledger.pairs() == insert_all(Seq::empty(), record_balances(records@).take(j as int)),
            decreases records.len() - j,
        {
            ledger.insert(records[j].id.clone(), records[j].balance);
            proof {
                assert(record_balances(records@).take(j + 1) =~= record_balances(records@).take(
                    j as int,
                ).push((records@[j as int].id@, records@[j as int].balance)));
                lemma_insert_all_push(
                    Seq::empty(),
                    record_balances(records@).take(j as int),
                    (records@[j as int].id@, records@[j as int].balance),
                );
            }
            j += 1;
        }
        proof {
            assert(record_balances(records@).take(records.len() as int) =~= record_balances(records@));
        }
        let r = BalanceSheetReport::from_roots(roots.as_slice(), &ledger);
        proof {
            assert(forest_built(records@, roots@));
        }
        r
    }
}

proof fn lemma_sheet_totals_stay_none(
    roots: Seq<AccountNode>,
    ledger: Seq<(Seq<char>, Dec)>,
    k: nat,
    n: nat,
)
    requires
        k <= n,
        sheet_totals(roots, ledger, k) is None,
    ensures
        sheet_totals(roots, ledger, n) is None,
    decreases n - k,
{
    if k < n {
        lemma_sheet_totals_stay_none(roots, ledger, k, (n - 1) as nat);
    }
}

} // verus!
