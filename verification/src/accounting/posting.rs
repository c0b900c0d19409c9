//! Double-entry posting: validation of general ledger entries and the
//! SurrealQL that records them.
use vstd::prelude::*;
use vstd::string::StringExecFns;
use crate::accounting::LedgerError;
use crate::accounting::record::{RecordRef, record_id_parse};
use crate::decimal::{
    Dec, add_to_sum, decimal_text, exact_sum, lemma_exact_sum_prefix, fits_at_scale, max_nat, o_sub, seq_max_scale, sum_fits,
    sum_prefix,
};
use crate::text::{nat_text, usize_text};

verus! {

/// A line of a journal: a debit or credit to an account, for a voucher.
#[derive(Clone, Debug)]
pub struct GLEntry {
    pub account: RecordRef,
    pub debit: Dec,
    pub credit: Dec,
    pub voucher_type: String,
    pub voucher_no: String,
    pub cost_center: Option<String>,
}

/// The debits of the entries, in order.
pub open spec fn debits(entries: Seq<GLEntry>) -> Seq<Dec> {
    entries.map_values(|e: GLEntry| e.debit)
}

/// The credits of the entries, in order.
pub open spec fn credits(entries: Seq<GLEntry>) -> Seq<Dec> {
    entries.map_values(|e: GLEntry| e.credit)
}

/// The sum of the debits less the sum of the credits, each sum added from the left.
pub open spec fn discrepancy(entries: Seq<GLEntry>) -> Option<Dec> {
    o_sub(sum_prefix(debits(entries), entries.len()), sum_prefix(credits(entries), entries.len()))
}

/// The verdict on debits and credits: `Ok` when their sums are equal in
/// value, else the error with debits minus credits; `None` where a sum overflows.
pub open spec fn balance_verdict(ds: Seq<Dec>, cs: Seq<Dec>) -> Option<Result<(), LedgerError>> {
    match o_sub(sum_prefix(ds, ds.len()), sum_prefix(cs, cs.len())) {
        None => None,
        Some(d) => if d.is_zero_value() {
            Some(Ok(()))
        } else {
            Some(Err(LedgerError::UnbalancedEntry(d)))
        },
    }
}

/// The verdict on a journal: `Ok` when debits and credits balance, else the
/// discrepancy; `None` where a sum overflows.
pub open spec fn validation(entries: Seq<GLEntry>) -> Option<Result<(), LedgerError>> {
    balance_verdict(debits(entries), credits(entries))
}

/// Checks that debits and credits balance.  Balanced means that the two sums
/// are equal in value; where each side sums without loss, that their exact
/// sums are equal.
pub(crate) fn check_balance(ds: &Vec<Dec>, cs: &Vec<Dec>) -> (r: Option<Result<(), LedgerError>>)
    ensures
        r == balance_verdict(ds@, cs@),
        r matches Some(v) ==> (v is Ok <==> sum_prefix(ds@, ds@.len()).unwrap().units() == sum_prefix(
            cs@,
            cs@.len(),
        ).unwrap().units()),
        sum_fits(ds@) && sum_fits(cs@) ==> (r == Some(Ok::<(), LedgerError>(())) <==> exact_sum(
            ds@,
            ds@.len(),
        ) == exact_sum(cs@, cs@.len())),
{
    let mut sd: Option<Dec> = Some(Dec::zero());
    proof {
        Dec::lemma_zero_units();
    }
    let mut i: usize = 0;
    while i < ds.len()
        invariant
            i <= ds.len(),
            sd == sum_prefix(ds@, i as nat),
            sum_fits(ds@) ==> sd is Some && sd.unwrap().units() == exact_sum(ds@, i as nat)
                && sd.unwrap().scale_of() <= seq_max_scale(ds@),
        decreases ds.len() - i,
    {
        sd = add_to_sum(sd, ds[i], Ghost(ds@), Ghost(i as nat));
        i += 1;
    }
    let mut sc: Option<Dec> = Some(Dec::zero());
    let mut j: usize = 0;
    while j < cs.len()
        invariant
            j <= cs.len(),
            sc == sum_prefix(cs@, j as nat),
            sum_fits(cs@) ==> sc is Some && sc.unwrap().units() == exact_sum(cs@, j as nat)
                && sc.unwrap().scale_of() <= seq_max_scale(cs@),
        decreases cs.len() - j,
    {
        sc = add_to_sum(sc, cs[j], Ghost(cs@), Ghost(j as nat));
        j += 1;
    }
    let diff = match (sd, sc) {
        (Some(a), Some(b)) => {
            let _ = a.scale();
            let _ = b.scale();
            proof {
                assert(fits_at_scale(0, max_nat(a.scale_of(), b.scale_of()))) by {
                    crate::decimal::lemma_pow10_positive((28 - max_nat(a.scale_of(), b.scale_of())) as nat);
                }
            }
            a.checked_sub(&b)
        },
        _ => None,
    };
    match diff {
        None => None,
        Some(d) => {
            if !d.is_zero() {
                Some(Err(LedgerError::UnbalancedEntry(d)))
            } else {
                Some(Ok(()))
            }
        },
    }
}

/// A cost center quoted for SurrealQL, or `NONE`.
pub open spec fn cost_center_sql(cc: Option<String>) -> Seq<char> {
    match cc {
        Some(c) => "'"@ + c@ + "'"@,
        None => "NONE"@,
    }
}

/// The statement that records an entry as a `gl_entry`.
pub open spec fn create_entry_sql(e: GLEntry) -> Seq<char> {
    "CREATE gl_entry CONTENT { account: "@ + e.account.sql() + ", debit: "@ + decimal_text(e.debit)
        + ", credit: "@ + decimal_text(e.credit) + ", voucher_type: '"@ + e.voucher_type@
        + "', voucher_no: '"@ + e.voucher_no@ + "', cost_center: "@ + cost_center_sql(e.cost_center)
        + " };"@
}

/// The statement that moves an account's balance by debit minus credit.
pub open spec fn update_balance_sql(e: GLEntry) -> Seq<char> {
    "UPDATE "@ + e.account.sql() + " SET balance = balance + "@ + decimal_text(e.debit) + " - "@
        + decimal_text(e.credit) + ";"@
}

/// The statements for the first `n` entries: for each, its `gl_entry` and its
/// balance update.
pub open spec fn entry_statements(entries: Seq<GLEntry>, n: nat) -> Seq<Seq<char>>
    decreases n,
{
    if n == 0 {
        Seq::empty()
    } else {
        entry_statements(entries, (n - 1) as nat).push(create_entry_sql(entries[n - 1])).push(
            update_balance_sql(entries[n - 1]),
        )
    }
}

/// The posting script: the entry statements inside one transaction.
pub open spec fn posting_queries(entries: Seq<GLEntry>) -> Seq<Seq<char>> {
    seq!["BEGIN TRANSACTION;"@] + entry_statements(entries, entries.len()) + seq![
        "COMMIT TRANSACTION;"@,
    ]
}

/// The statement that binds the `i`-th entry's `gl_entry` to `$entry<i>`.
pub open spec fn bind_entry_sql(e: GLEntry, i: nat) -> Seq<char> {
    "let $entry"@ + nat_text(i) + " = (CREATE gl_entry CONTENT { account: "@ + e.account.sql()
        + ", debit: "@ + decimal_text(e.debit) + ", credit: "@ + decimal_text(e.credit)
        + ", voucher_type: '"@ + e.voucher_type@ + "', voucher_no: '"@ + e.voucher_no@
        + "', cost_center: "@ + cost_center_sql(e.cost_center) + " });"@
}

/// The graph edge from the voucher to the account of the `i`-th entry.
pub open spec fn relate_entry_sql(e: GLEntry, i: nat) -> Seq<char> {
    "RELATE $voucher -> POSTED_TO -> "@ + e.account.sql() + " CONTENT { debit: "@ + decimal_text(
        e.debit,
    ) + ", credit: "@ + decimal_text(e.credit) + ", entry: $entry"@ + nat_text(i) + ".id };"@
}

/// The commit statements for the first `n` entries.
pub open spec fn commit_statements(entries: Seq<GLEntry>, n: nat) -> Seq<Seq<char>>
    decreases n,
{
    if n == 0 {
        Seq::empty()
    } else {
        commit_statements(entries, (n - 1) as nat).push(
            bind_entry_sql(entries[n - 1], (n - 1) as nat),
        ).push(relate_entry_sql(entries[n - 1], (n - 1) as nat)).push(
            update_balance_sql(entries[n - 1]),
        )
    }
}

/// Lines joined by newlines.
pub open spec fn join_lines(lines: Seq<Seq<char>>) -> Seq<char>
    decreases lines.len(),
{
    if lines.len() == 0 {
        Seq::empty()
    } else if lines.len() == 1 {
        lines[0]
    } else {
        join_lines(lines.drop_last()) + "\n"@ + lines.last()
    }
}

/// The script that commits a voucher whose record is `voucher_sql`.
pub open spec fn commit_script(voucher_sql: Seq<char>, entries: Seq<GLEntry>) -> Seq<char> {
    join_lines(
        seq!["BEGIN TRANSACTION;"@, "let $voucher = "@ + voucher_sql + ";"@] + commit_statements(
            entries,
            entries.len(),
        ) + seq!["COMMIT TRANSACTION;"@],
    )
}

/// The validation of the entries; `None` where a sum overflows.  Balanced
/// means that the sums of debits and of credits are equal in value; where
/// each side sums without loss, that their exact sums are equal.
pub fn checked_validate_and_compile_transaction(entries: &[GLEntry]) -> (r: Option<
    Result<(), LedgerError>,
>)
    ensures
        r == validation(entries@),
        r matches Some(v) ==> (v is Ok <==> sum_prefix(debits(entries@), entries@.len()).unwrap().units()
            == sum_prefix(credits(entries@), entries@.len()).unwrap().units()),
        sum_fits(debits(entries@)) && sum_fits(credits(entries@)) ==> (r == Some(
            Ok::<(), LedgerError>(()),
        ) <==> exact_sum(debits(entries@), entries@.len()) == exact_sum(
            credits(entries@),
            entries@.len(),
        )),
        sum_fits(debits(entries@)) && sum_fits(credits(entries@)) ==> forall|p: Seq<GLEntry>|
            #[trigger] p.to_multiset() == entries@.to_multiset() ==> (r == Some(Ok::<(), LedgerError>(()))
                <==> exact_sum(debits(p), p.len()) == exact_sum(credits(p), p.len())),
{
    proof {
        assert forall|p: Seq<GLEntry>| #[trigger] p.to_multiset() == entries@.to_multiset() implies exact_sum(
            debits(p),
            p.len(),
        ) == exact_sum(debits(entries@), entries@.len()) && exact_sum(credits(p), p.len()) == exact_sum(
            credits(entries@),
            entries@.len(),
        ) by {
            lemma_validation_ignores_order(entries@, p);
        }
    }
    let mut ds: Vec<Dec> = Vec::new();
    let mut cs: Vec<Dec> = Vec::new();
    let mut i: usize = 0;
    while i < entries.len()
        invariant
            i <= entries.len(),
            ds@ == debits(entries@).take(i as int),
            cs@ == credits(entries@).take(i as int),
        decreases entries.len() - i,
    {
        ds.push(entries[i].debit);
        cs.push(entries[i].credit);
        proof {
            assert(debits(entries@).take(i + 1) =~= debits(entries@).take(i as int).push(entries@[i as int].debit));
            assert(credits(entries@).take(i + 1) =~= credits(entries@).take(i as int).push(entries@[i as int].credit));
        }
        i += 1;
    }
    proof {
        assert(debits(entries@).take(entries@.len() as int) =~= debits(entries@));
        assert(credits(entries@).take(entries@.len() as int) =~= credits(entries@));
    }
    check_balance(&ds, &cs)
}

/// Enforces the double-entry rule: the entries are accepted exactly when the
/// sum of their debits equals the sum of their credits; otherwise the error
/// carries debits minus credits.  Where the sums are exact, the verdict is
/// the same for every order of the entries.
pub fn validate_and_compile_transaction(entries: &[GLEntry]) -> (r: Result<(), LedgerError>)
    requires
        discrepancy(entries@) is Some,
    ensures
        Some(r) == validation(entries@),
        r is Ok <==> sum_prefix(debits(entries@), entries@.len()).unwrap().units() == sum_prefix(
            credits(entries@),
            entries@.len(),
        ).unwrap().units(),
        sum_fits(debits(entries@)) && sum_fits(credits(entries@)) ==> (r is Ok <==> exact_sum(
            debits(entries@),
            entries@.len(),
        ) == exact_sum(credits(entries@), entries@.len())),
        sum_fits(debits(entries@)) && sum_fits(credits(entries@)) ==> forall|p: Seq<GLEntry>|
            #[trigger] p.to_multiset() == entries@.to_multiset() ==> (r is Ok <==> exact_sum(debits(p), p.len())
                == exact_sum(credits(p), p.len())),
{
    checked_validate_and_compile_transaction(entries).unwrap()
}

fn cost_center_text(cc: &Option<String>) -> (r: String)
    ensures
        r@ == cost_center_sql(*cc),
{
    match cc {
        Some(c) => {
            let mut s = String::from_str("'");
            s.append(c.as_str());
            s.append("'");
            s
        },
        None => String::from_str("NONE"),
    }
}

fn create_entry_text(e: &GLEntry) -> (r: String)
    ensures
        r@ == create_entry_sql(*e),
{
    let mut s = String::from_str("CREATE gl_entry CONTENT { account: ");
    s.append(e.account.to_sql().as_str());
    s.append(", debit: ");
    s.append(e.debit.to_text().as_str());
    s.append(", credit: ");
    s.append(e.credit.to_text().as_str());
    s.append(", voucher_type: '");
    s.append(e.voucher_type.as_str());
    s.append("', voucher_no: '");
    s.append(e.voucher_no.as_str());
    s.append("', cost_center: ");
    s.append(cost_center_text(&e.cost_center).as_str());
    s.append(" };");
    s
}

fn update_balance_text(e: &GLEntry) -> (r: String)
    ensures
        r@ == update_balance_sql(*e),
{
    let mut s = String::from_str("UPDATE ");
    s.append(e.account.to_sql().as_str());
    s.append(" SET balance = balance + ");
    s.append(e.debit.to_text().as_str());
    s.append(" - ");
    s.append(e.credit.to_text().as_str());
    s.append(";");
    s
}

/// The SurrealQL that records balanced entries in one transaction: for each
/// entry a `gl_entry` and an update of its account's balance.  Unbalanced
/// entries are refused as `validate_and_compile_transaction` refuses them.
pub fn generate_posting_queries(entries: &[GLEntry]) -> (r: Result<Vec<String>, LedgerError>)
    requires
        discrepancy(entries@) is Some,
    ensures
        match r {
            Ok(q) => validation(entries@) == Some(Ok::<(), LedgerError>(())) && q@.map_values(
                |s: String| s@,
            ) == posting_queries(entries@),
            Err(e) => validation(entries@) == Some(Err::<(), LedgerError>(e)),
        },
{
    match validate_and_compile_transaction(entries) {
        Err(e) => {
            return Err(e);
        },
        Ok(()) => {},
    }
    let mut queries: Vec<String> = Vec::new();
    queries.push(String::from_str("BEGIN TRANSACTION;"));
    let mut i: usize = 0;
    while i < entries.len()
        invariant
            i <= entries.len(),
            queries@.map_values(|s: String| s@) == seq!["BEGIN TRANSACTION;"@] + entry_statements(
                entries@,
                i as nat,
            ),
        decreases entries.len() - i,
    {
        let c = create_entry_text(&entries[i]);
        let u = update_balance_text(&entries[i]);
        let ghost before = queries@;
        queries.push(c);
        queries.push(u);
        proof {
            assert(queries@ == before.push(c).push(u));
            assert(queries@.map_values(|s: String| s@) =~= before.map_values(|s: String| s@).push(
                c@,
            ).push(u@));
            assert(seq!["BEGIN TRANSACTION;"@] + entry_statements(entries@, (i + 1) as nat) =~= (
            seq!["BEGIN TRANSACTION;"@] + entry_statements(entries@, i as nat)).push(c@).push(u@));
        }
        i += 1;
    }
    let ghost before = queries@;
    queries.push(String::from_str("COMMIT TRANSACTION;"));
    proof {
        assert(queries@.map_values(|s: String| s@) =~= before.map_values(|s: String| s@).push(
            "COMMIT TRANSACTION;"@,
        ));
        assert(posting_queries(entries@) =~= (seq!["BEGIN TRANSACTION;"@] + entry_statements(
            entries@,
            entries@.len(),
        )).push("COMMIT TRANSACTION;"@));
    }
    Ok(queries)
}

/// Appends a line to text joined by newlines.
proof fn lemma_join_push(lines: Seq<Seq<char>>, x: Seq<char>)
    requires
        lines.len() >= 1,
    ensures
        join_lines(lines.push(x)) == join_lines(lines) + "\n"@ + x,
{
    assert(lines.push(x).drop_last() =~= lines);
}

fn push_line(s: &mut String, line: &str, Ghost(lines): Ghost<Seq<Seq<char>>>)
    requires
        lines.len() >= 1,
        old(s)@ == join_lines(lines),
    ensures
        final(s)@ == join_lines(lines.push(line@)),
{
    proof {
        lemma_join_push(lines, line@);
    }
    s.append("\n");
    s.append(line);
}

fn bind_entry_text(e: &GLEntry, i: usize) -> (r: String)
    ensures
        r@ == bind_entry_sql(*e, i as nat),
{
    let mut s = String::from_str("let $entry");
    s.append(usize_text(i).as_str());
    s.append(" = (CREATE gl_entry CONTENT { account: ");
    s.append(e.account.to_sql().as_str());
    s.append(", debit: ");
    s.append(e.debit.to_text().as_str());
    s.append(", credit: ");
    s.append(e.credit.to_text().as_str());
    s.append(", voucher_type: '");
    s.append(e.voucher_type.as_str());
    s.append("', voucher_no: '");
    s.append(e.voucher_no.as_str());
    s.append("', cost_center: ");
    s.append(cost_center_text(&e.cost_center).as_str());
    s.append(" });");
    s
}

fn relate_entry_text(e: &GLEntry, i: usize) -> (r: String)
    ensures
        r@ == relate_entry_sql(*e, i as nat),
{
    let mut s = String::from_str("RELATE $voucher -> POSTED_TO -> ");
    s.append(e.account.to_sql().as_str());
    s.append(" CONTENT { debit: ");
    s.append(e.debit.to_text().as_str());
    s.append(", credit: ");
    s.append(e.credit.to_text().as_str());
    s.append(", entry: $entry");
    s.append(usize_text(i).as_str());
    s.append(".id };");
    s
}

/// Posts journal entries under a voucher, as one SurrealQL transaction.
pub struct LedgerPostingEngine;

impl LedgerPostingEngine {
    /// The transaction that commits balanced entries under the voucher
    /// `voucher_type:voucher_no`: the voucher is bound to `$voucher`, and for
    /// each entry its `gl_entry` is created and bound, related to its account
    /// from the voucher, and the account's balance moved.  Unbalanced entries
    /// are refused first; a voucher id that does not parse is a database error
    /// with the parser's message.
    pub fn commit_script(voucher_type: &str, voucher_no: &str, entries: &[GLEntry]) -> (r: Result<
        String,
        LedgerError,
    >)
        requires
            discrepancy(entries@) is Some,
        ensures
            match r {
                Ok(q) => {
                    &&& validation(entries@) == Some(Ok::<(), LedgerError>(()))
                    &&& record_id_parse(voucher_type@ + ":"@ + voucher_no@) matches Ok(id)
                    &&& q@ == commit_script(
                        crate::accounting::record::record_id_sql(id.0, id.1),
                        entries@,
                    )
                },
                Err(LedgerError::Database(m)) => validation(entries@) == Some(Ok::<(), LedgerError>(()))
                    && record_id_parse(voucher_type@ + ":"@ + voucher_no@) == Err::<
                    (Seq<char>, Seq<char>),
                    Seq<char>,
                >(m@),
                Err(e) => validation(entries@) == Some(Err::<(), LedgerError>(e)),
            },
    {
        match validate_and_compile_transaction(entries) {
            Err(e) => {
                return Err(e);
            },
            Ok(()) => {},
        }
        let mut id_text = String::from_str(voucher_type);
        id_text.append(":");
        id_text.append(voucher_no);
        let voucher = match RecordRef::parse_simple(id_text.as_str()) {
            Ok(v) => v,
            Err(m) => {
                return Err(LedgerError::Database(m));
            },
        };
        let voucher_sql = voucher.to_sql();
        let mut script = String::from_str("BEGIN TRANSACTION;");
        let mut line = String::from_str("let $voucher = ");
        line.append(voucher_sql.as_str());
        line.append(";");
        let ghost first = seq!["BEGIN TRANSACTION;"@];
        proof {
            assert(join_lines(first) == "BEGIN TRANSACTION;"@);
        }
        push_line(&mut script, line.as_str(), Ghost(first));
        let ghost head = seq!["BEGIN TRANSACTION;"@, line@];
        proof {
            assert(first.push(line@) =~= head);
            assert(head + commit_statements(entries@, 0) =~= head);
        }
        let mut i: usize = 0;
        while i < entries.len()
            invariant
                i <= entries.len(),
                head.len() == 2,
                script@ == join_lines(head + commit_statements(entries@, i as nat)),
            decreases entries.len() - i,
        {
            let e = &entries[i];
            let b = bind_entry_text(e, i);
            let rl = relate_entry_text(e, i);
            let u = update_balance_text(e);
            let ghost l0 = head + commit_statements(entries@, i as nat);
            push_line(&mut script, b.as_str(), Ghost(l0));
            push_line(&mut script, rl.as_str(), Ghost(l0.push(b@)));
            push_line(&mut script, u.as_str(), Ghost(l0.push(b@).push(rl@)));
            proof {
                assert(head + commit_statements(entries@, (i + 1) as nat) =~= l0.push(b@).push(rl@).push(
                    u@,
                ));
            }
            i += 1;
        }
        let ghost l1 = head + commit_statements(entries@, entries@.len());
        push_line(&mut script, "COMMIT TRANSACTION;", Ghost(l1));
        proof {
            assert(seq!["BEGIN TRANSACTION;"@, "let $voucher = "@ + voucher_sql@ + ";"@] =~= head);
            assert(l1.push("COMMIT TRANSACTION;"@) =~= head + commit_statements(entries@, entries@.len())
                + seq!["COMMIT TRANSACTION;"@]);
        }
        Ok(script)
    }
}


/// The exact sum of amounts is the exact sum without the `j`-th amount, plus it.
proof fn lemma_exact_sum_remove(s: Seq<Dec>, j: int)
    requires
        0 <= j < s.len(),
    ensures
        exact_sum(s, s.len()) == exact_sum(s.remove(j), (s.len() - 1) as nat) + s[j].units(),
    decreases s.len(),
{
    let r = s.remove(j);
    if j == s.len() - 1 {
        assert forall|k: nat| k <= r.len() implies #[trigger] exact_sum(r, k) == exact_sum(s, k) by {
            lemma_exact_sum_prefix(r, s, k);
        }
    } else {
        let sd = s.drop_last();
        lemma_exact_sum_remove(sd, j);
        assert(r.drop_last() =~= sd.remove(j));
        assert(r.last() == s.last());
        assert(exact_sum(r, r.len()) == exact_sum(r.drop_last(), (r.len() - 1) as nat) + r.last().units())
            by {
            lemma_exact_sum_prefix(r.drop_last(), r, (r.len() - 1) as nat);
        }
        lemma_exact_sum_prefix(sd, s, sd.len());
        lemma_exact_sum_prefix(sd.remove(j), r.drop_last(), (sd.len() - 1) as nat);
    }
}

/// Reordering journal entries changes neither the exact sum of the debits nor
/// that of the credits; since these decide the validation wherever the sums
/// fit, the order of the entries does not decide whether a journal balances.
pub proof fn lemma_validation_ignores_order(entries: Seq<GLEntry>, reordered: Seq<GLEntry>)
    requires
        reordered.to_multiset() == entries.to_multiset(),
    ensures
        exact_sum(debits(reordered), reordered.len()) == exact_sum(debits(entries), entries.len()),
        exact_sum(credits(reordered), reordered.len()) == exact_sum(credits(entries), entries.len()),
        sum_fits(debits(reordered)) && sum_fits(credits(reordered)) && sum_fits(debits(entries))
            && sum_fits(credits(entries)) ==> ((exact_sum(debits(reordered), reordered.len())
            == exact_sum(credits(reordered), reordered.len())) <==> (exact_sum(
            debits(entries),
            entries.len(),
        ) == exact_sum(credits(entries), entries.len()))),
    decreases entries.len(),
{
    broadcast use vstd::seq_lib::group_to_multiset_ensures;

    assert(reordered.len() == reordered.to_multiset().len());
    assert(entries.len() == entries.to_multiset().len());
    if entries.len() > 0 {
        let x = entries.last();
        let rest = entries.drop_last();
        assert(entries =~= rest.push(x));
        assert(entries.to_multiset().count(x) > 0);
        assert(reordered.contains(x));
        let j = choose|j: int| 0 <= j < reordered.len() && reordered[j] == x;
        let others = reordered.remove(j);
        assert(others.to_multiset() =~= rest.to_multiset());
        lemma_validation_ignores_order(rest, others);
        lemma_exact_sum_remove(debits(reordered), j);
        lemma_exact_sum_remove(credits(reordered), j);
        assert(debits(reordered).remove(j) =~= debits(others));
        assert(credits(reordered).remove(j) =~= credits(others));
        assert(debits(rest) =~= debits(entries).drop_last());
        assert(credits(rest) =~= credits(entries).drop_last());
        lemma_exact_sum_prefix(debits(rest), debits(entries), rest.len());
        lemma_exact_sum_prefix(credits(rest), credits(entries), rest.len());
    }
}

} // verus!
