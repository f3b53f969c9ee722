use vstd::prelude::*;

use crate::feed::feed_rows;
use crate::model::VulnRecord;

verus! {

/// The vulnerability table after writing `rows` in order, each replacing any row with the
/// same business key.
pub open spec fn upsert_all(table: Map<Seq<char>, VulnRecord>, rows: Seq<VulnRecord>) -> Map<
    Seq<char>,
    VulnRecord,
>
    decreases rows.len(),
{
    if rows.len() == 0 {
        table
    } else {
        upsert_all(table, rows.drop_last()).insert(rows.last().cve_id, rows.last())
    }
}

/// Some row of `rows` has business key `k`.
pub open spec fn has_key(rows: Seq<VulnRecord>, k: Seq<char>) -> bool {
    exists|j: int| 0 <= j < rows.len() && (#[trigger] rows[j]).cve_id == k
}

proof fn lemma_upsert_lookup(
    t1: Map<Seq<char>, VulnRecord>,
    t2: Map<Seq<char>, VulnRecord>,
    rows: Seq<VulnRecord>,
    k: Seq<char>,
)
    ensures
        has_key(rows, k) ==> upsert_all(t1, rows).contains_key(k) && upsert_all(t2, rows).contains_key(
            k,
        ) && upsert_all(t1, rows)[k] == upsert_all(t2, rows)[k],
        !has_key(rows, k) ==> (upsert_all(t1, rows).contains_key(k) == t1.contains_key(k) && (
        t1.contains_key(k) ==> upsert_all(t1, rows)[k] == t1[k])),
    decreases rows.len(),
{
    if rows.len() > 0 {
        let init = rows.drop_last();
        lemma_upsert_lookup(t1, t2, init, k);
        if rows.last().cve_id != k {
            if has_key(rows, k) {
                let j = choose|j: int| 0 <= j < rows.len() && (#[trigger] rows[j]).cve_id == k;
                assert(j < rows.len() - 1);
                assert(init[j] == rows[j]);
            } else {
                assert forall|j: int| 0 <= j < init.len() implies (#[trigger] init[j]).cve_id != k by {
                    assert(init[j] == rows[j]);
                }
            }
        } else {
            assert(rows[rows.len() - 1].cve_id == k);
        }
    }
}

/// Writing the same rows a second time leaves the table as the first time left it: the
/// business key decides which row each write replaces.
pub proof fn lemma_upsert_idempotent(table: Map<Seq<char>, VulnRecord>, rows: Seq<VulnRecord>)
    ensures
        upsert_all(upsert_all(table, rows), rows) == upsert_all(table, rows),
{
    let once = upsert_all(table, rows);
    let twice = upsert_all(once, rows);
    assert forall|k: Seq<char>| #[trigger] twice.contains_key(k) == once.contains_key(k) by {
        lemma_upsert_lookup(once, table, rows, k);
    }
    assert forall|k: Seq<char>| #[trigger] twice.contains_key(k) implies twice[k] == once[k] by {
        lemma_upsert_lookup(once, table, rows, k);
    }
    assert(twice =~= once);
}

/// Importing the same feed twice leaves the vulnerability table, and so its row count, as
/// importing it once does.
pub proof fn lemma_reimport_idempotent(table: Map<Seq<char>, VulnRecord>, feed: Seq<char>)
    ensures
        upsert_all(upsert_all(table, feed_rows(feed)), feed_rows(feed)) == upsert_all(
            table,
            feed_rows(feed),
        ),
        upsert_all(upsert_all(table, feed_rows(feed)), feed_rows(feed)).dom().len() == upsert_all(
            table,
            feed_rows(feed),
        ).dom().len(),
{
    lemma_upsert_idempotent(table, feed_rows(feed));
}

} // verus!
