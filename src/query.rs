use vstd::prelude::*;
use vstd::multiset::Multiset;

use crate::model::{FilterSeverity, SortField, VulnRecord, Vulnerability};
use crate::text::{contains_fold, contains_ignore_case, eq_fold, eq_ignore_case, lemma_lex_total, lemma_lex_trans, lex_le, lex_le_text};

verus! {

/// The rank of a severity in severity order, in any letter case: High 1, Medium 2, Low 3,
/// and anything else 4.
pub open spec fn severity_rank_spec(s: Seq<char>) -> int {
    if eq_fold(s, seq!['h', 'i', 'g', 'h']) {
        1
    } else if eq_fold(s, seq!['m', 'e', 'd', 'i', 'u', 'm']) {
        2
    } else if eq_fold(s, seq!['l', 'o', 'w']) {
        3
    } else {
        4
    }
}

/// The rank of a severity in severity order.
pub fn severity_rank(severity: &str) -> (r: u8)
    ensures
        r as int == severity_rank_spec(severity@),
{
    proof {
        reveal_strlit("high");
        reveal_strlit("medium");
        reveal_strlit("low");
    }
    assert("high"@ =~= seq!['h', 'i', 'g', 'h']);
    assert("medium"@ =~= seq!['m', 'e', 'd', 'i', 'u', 'm']);
    assert("low"@ =~= seq!['l', 'o', 'w']);
    if eq_ignore_case(severity, "high") {
        1
    } else if eq_ignore_case(severity, "medium") {
        2
    } else if eq_ignore_case(severity, "low") {
        3
    } else {
        4
    }
}

/// The lower-case name of a severity filter, or `None` for all severities.
pub open spec fn filter_name(f: FilterSeverity) -> Option<Seq<char>> {
    match f {
        FilterSeverity::All => None,
        FilterSeverity::High => Some(seq!['h', 'i', 'g', 'h']),
        FilterSeverity::Medium => Some(seq!['m', 'e', 'd', 'i', 'u', 'm']),
        FilterSeverity::Low => Some(seq!['l', 'o', 'w']),
    }
}

/// A record matches a search when the text, if any, occurs in its key or description in
/// any ASCII letter case, and its severity, in any letter case, is the one asked for.
pub open spec fn matches_search(v: VulnRecord, query: Seq<char>, severity: FilterSeverity) -> bool {
    &&& (query.len() == 0 || contains_fold(v.cve_id, query) || (v.description matches Some(d)
        && contains_fold(d, query)))
    &&& (filter_name(severity) matches Some(n) ==> eq_fold(v.severity, n))
}

/// Whether a record matches a search text and a severity filter.
pub fn record_matches(vuln: &Vulnerability, query: &str, severity: FilterSeverity) -> (r: bool)
    ensures
        r == matches_search(vuln@, query@, severity),
{
    let text_ok = query.unicode_len() == 0 || contains_ignore_case(vuln.cve_id.as_str(), query)
        || match &vuln.description {
        Some(d) => contains_ignore_case(d.as_str(), query),
        None => false,
    };
    proof {
        reveal_strlit("high");
        reveal_strlit("medium");
        reveal_strlit("low");
    }
    assert("high"@ =~= seq!['h', 'i', 'g', 'h']);
    assert("medium"@ =~= seq!['m', 'e', 'd', 'i', 'u', 'm']);
    assert("low"@ =~= seq!['l', 'o', 'w']);
    let severity_ok = match severity {
        FilterSeverity::All => true,
        FilterSeverity::High => eq_ignore_case(vuln.severity.as_str(), "high"),
        FilterSeverity::Medium => eq_ignore_case(vuln.severity.as_str(), "medium"),
        FilterSeverity::Low => eq_ignore_case(vuln.severity.as_str(), "low"),
    };
    text_ok && severity_ok
}

/// The views of a list of records.
pub open spec fn records(v: Seq<Vulnerability>) -> Seq<VulnRecord> {
    v.map_values(|x: Vulnerability| x@)
}

/// The records of `s` that match a search, in their order.
pub open spec fn matching(s: Seq<VulnRecord>, query: Seq<char>, severity: FilterSeverity) -> Seq<
    VulnRecord,
>
    decreases s.len(),
{
    if s.len() == 0 {
        Seq::<VulnRecord>::empty()
    } else if matches_search(s.last(), query, severity) {
        matching(s.drop_last(), query, severity).push(s.last())
    } else {
        matching(s.drop_last(), query, severity)
    }
}

/// The records that match a search text and a severity filter, in their order.
pub fn filter_records(items: &Vec<Vulnerability>, query: &str, severity: FilterSeverity) -> (r: Vec<
    Vulnerability,
>)
    ensures
        records(r@) == matching(records(items@), query@, severity),
{
    let n = items.len();
    let ghost all = records(items@);
    let mut out: Vec<Vulnerability> = Vec::new();
    let mut i: usize = 0;
    assert(all.subrange(0, 0) =~= Seq::<VulnRecord>::empty());
    assert(records(out@) =~= Seq::<VulnRecord>::empty());
    while i < n
        invariant
            n == items@.len(),
            all == records(items@),
            i <= n,
            records(out@) == matching(all.subrange(0, i as int), query@, severity),
        decreases n - i,
    {
        let ghost seen = all.subrange(0, i + 1);
        assert(seen.drop_last() =~= all.subrange(0, i as int));
        assert(seen.last() == items@[i as int]@);
        if record_matches(&items[i], query, severity) {
            let ghost before = out@;
            out.push(items[i].clone_record());
            assert(records(out@) =~= records(before).push(items@[i as int]@));
        }
        i = i + 1;
    }
    assert(all.subrange(0, n as int) =~= all);
    out
}

/// The records of `s` with severity rank `t`, in their order.
pub open spec fn tier_forward(s: Seq<VulnRecord>, t: int) -> Seq<VulnRecord>
    decreases s.len(),
{
    if s.len() == 0 {
        Seq::<VulnRecord>::empty()
    } else if severity_rank_spec(s.last().severity) == t {
        tier_forward(s.drop_last(), t).push(s.last())
    } else {
        tier_forward(s.drop_last(), t)
    }
}

/// The records of `s` with severity rank `t`, in reverse order.
pub open spec fn tier_backward(s: Seq<VulnRecord>, t: int) -> Seq<VulnRecord>
    decreases s.len(),
{
    if s.len() == 0 {
        Seq::<VulnRecord>::empty()
    } else if severity_rank_spec(s[0].severity) == t {
        tier_backward(s.drop_first(), t).push(s[0])
    } else {
        tier_backward(s.drop_first(), t)
    }
}

/// One severity tier: in order when ascending, in reverse order when descending.
pub open spec fn tier(s: Seq<VulnRecord>, t: int, ascending: bool) -> Seq<VulnRecord> {
    if ascending {
        tier_forward(s, t)
    } else {
        tier_backward(s, t)
    }
}

/// The tiers of rank below `t`, one after another.
pub open spec fn tiers_below(s: Seq<VulnRecord>, t: int, ascending: bool) -> Seq<VulnRecord>
    decreases t,
{
    if t <= 1 {
        Seq::<VulnRecord>::empty()
    } else {
        tiers_below(s, t - 1, ascending) + tier(s, t - 1, ascending)
    }
}

/// Severity order: every High record, then every Medium, then every Low, then the rest;
/// the direction only decides the order inside a tier.
pub open spec fn severity_order(s: Seq<VulnRecord>, ascending: bool) -> Seq<VulnRecord> {
    tiers_below(s, 5, ascending)
}

/// Orders records by severity tier, High first and unknown or unexpected severities last,
/// whatever the direction; within a tier they keep their order when ascending and are
/// reversed when descending.
pub fn order_by_severity(items: &Vec<Vulnerability>, ascending: bool) -> (r: Vec<Vulnerability>)
    ensures
        records(r@) == severity_order(records(items@), ascending),
        forall|i: int, j: int|
            0 <= i < j < r@.len() ==> severity_rank_spec((#[trigger] r@[i])@.severity)
                <= severity_rank_spec((#[trigger] r@[j])@.severity),
{
    let n = items.len();
    let ghost all = records(items@);
    let mut out: Vec<Vulnerability> = Vec::new();
    let mut t: u8 = 1;
    assert(records(out@) =~= tiers_below(all, 1, ascending));
    while t <= 4
        invariant
            n == items@.len(),
            all == records(items@),
            1 <= t <= 5,
            records(out@) == tiers_below(all, t as int, ascending),
            forall|i: int, j: int|
                0 <= i < j < out@.len() ==> severity_rank_spec((#[trigger] out@[i])@.severity)
                    <= severity_rank_spec((#[trigger] out@[j])@.severity),
            forall|i: int| 0 <= i < out@.len() ==> severity_rank_spec((#[trigger] out@[i])@.severity) < t,
        decreases 5 - t,
    {
        let ghost base = records(out@);
        let mut k: usize = 0;
        assert(all.subrange(0, 0) =~= Seq::<VulnRecord>::empty());
        assert(all.subrange(n as int, n as int) =~= Seq::<VulnRecord>::empty());
        assert(base + Seq::<VulnRecord>::empty() =~= base);
        while k < n
            invariant
                n == items@.len(),
                all == records(items@),
                1 <= t <= 4,
                k <= n,
                base == tiers_below(all, t as int, ascending),
                records(out@) == base + if ascending {
                    tier_forward(all.subrange(0, k as int), t as int)
                } else {
                    tier_backward(all.subrange(n - k, n as int), t as int)
                },
                forall|i: int, j: int|
                    0 <= i < j < out@.len() ==> severity_rank_spec((#[trigger] out@[i])@.severity)
                        <= severity_rank_spec((#[trigger] out@[j])@.severity),
                forall|i: int| 0 <= i < out@.len() ==> severity_rank_spec((#[trigger] out@[i])@.severity) <= t,
            decreases n - k,
        {
            let idx = if ascending {
                k
            } else {
                n - 1 - k
            };
            if ascending {
                let ghost seen = all.subrange(0, k + 1);
                assert(seen.drop_last() =~= all.subrange(0, k as int));
                assert(seen.last() == items@[idx as int]@);
            } else {
                let ghost seen = all.subrange(n - k - 1, n as int);
                assert(seen.drop_first() =~= all.subrange(n - k, n as int));
                assert(seen[0] == items@[idx as int]@);
            }
            let rank = severity_rank(items[idx].severity.as_str());
            if rank == t {
                let ghost before = out@;
                out.push(items[idx].clone_record());
                assert(records(out@) =~= records(before).push(items@[idx as int]@));
                assert(out@[out@.len() - 1]@ == items@[idx as int]@);
            }
            k = k + 1;
        }
        assert(all.subrange(0, n as int) =~= all);
        assert(all.subrange(n - n, n as int) =~= all);
        t = t + 1;
    }
    out
}

/// `c / n` rounded up.
pub open spec fn ceil_div(c: int, n: int) -> int {
    if c % n == 0 {
        c / n
    } else {
        c / n + 1
    }
}

/// The number of pages of `page_size` records that `count` records fill.
pub fn total_pages(count: usize, page_size: usize) -> (r: usize)
    requires
        page_size > 0,
    ensures
        r == ceil_div(count as int, page_size as int),
{
    if count % page_size == 0 {
        count / page_size
    } else {
        assert(page_size != 1);
        assert(count / page_size < count) by (nonlinear_arith)
            requires
                page_size > 1,
                count % page_size != 0,
        {
        }
        count / page_size + 1
    }
}

/// The first position that page `page` shows.
pub open spec fn window_start(page: int, page_size: int, count: int) -> int {
    if page * page_size < count {
        page * page_size
    } else {
        count
    }
}

/// The position after the last one that page `page` shows.
pub open spec fn window_end(page: int, page_size: int, count: int) -> int {
    if page * page_size + page_size < count {
        page * page_size + page_size
    } else {
        count
    }
}

/// The positions that page `page` shows, among `count` records.
pub fn page_window(page: usize, page_size: usize, count: usize) -> (r: (usize, usize))
    ensures
        r.0 == window_start(page as int, page_size as int, count as int),
        r.1 == window_end(page as int, page_size as int, count as int),
        r.0 <= r.1 <= count,
{
    if page_size == 0 {
        return (0, 0);
    }
    if page > count / page_size {
        assert(page * page_size >= count) by (nonlinear_arith)
            requires
                page > count / page_size,
                page_size > 0,
        {
        }
        return (count, count);
    }
    assert(page * page_size <= count) by (nonlinear_arith)
        requires
            page <= count / page_size,
            page_size > 0,
    {
    }
    let start = page * page_size;
    let end = if count - start > page_size {
        start + page_size
    } else {
        count
    };
    (start, end)
}

/// The records that page `page` of a list shows.
pub fn paginate(items: &Vec<Vulnerability>, page: usize, page_size: usize) -> (r: Vec<
    Vulnerability,
>)
    ensures
        records(r@) == records(items@).subrange(
            window_start(page as int, page_size as int, items@.len() as int),
            window_end(page as int, page_size as int, items@.len() as int),
        ),
{
    let (start, end) = page_window(page, page_size, items.len());
    let ghost all = records(items@);
    let mut out: Vec<Vulnerability> = Vec::new();
    let mut i: usize = start;
    assert(records(out@) =~= all.subrange(start as int, start as int));
    while i < end
        invariant
            all == records(items@),
            start <= i <= end <= items@.len(),
            records(out@) == all.subrange(start as int, i as int),
        decreases end - i,
    {
        let ghost before = out@;
        out.push(items[i].clone_record());
        assert(records(out@) =~= records(before).push(items@[i as int]@));
        assert(all.subrange(start as int, i + 1) =~= all.subrange(start as int, i as int).push(
            all[i as int],
        ));
        i = i + 1;
    }
    out
}

/// Pages partition a result: no position is shown on two different pages, every position
/// is shown on the page its index divided by the page size names, and that page is below
/// the page count.
pub proof fn lemma_pages_partition(count: int, page_size: int, p: int, q: int, i: int)
    requires
        page_size > 0,
        count >= 0,
        p >= 0,
        q >= 0,
        0 <= i,
    ensures
        p != q ==> !(window_start(p, page_size, count) <= i < window_end(p, page_size, count)
            && window_start(q, page_size, count) <= i < window_end(q, page_size, count)),
        i < count ==> window_start(i / page_size, page_size, count) <= i < window_end(
            i / page_size,
            page_size,
            count,
        ) && i / page_size < ceil_div(count, page_size),
{
    if p != q && window_start(p, page_size, count) <= i < window_end(p, page_size, count)
        && window_start(q, page_size, count) <= i < window_end(q, page_size, count) {
        assert(p * page_size <= i < p * page_size + page_size);
        assert(q * page_size <= i < q * page_size + page_size);
        assert(false) by (nonlinear_arith)
            requires
                p != q,
                page_size > 0,
                p * page_size <= i < p * page_size + page_size,
                q * page_size <= i < q * page_size + page_size,
        {
            if p < q {
                assert(p * page_size + page_size <= q * page_size);
            } else {
                assert(q * page_size + page_size <= p * page_size);
            }
        }
    }
    if i < count {
        let d = i / page_size;
        assert(d * page_size <= i < d * page_size + page_size) by (nonlinear_arith)
            requires
                d == i / page_size,
                page_size > 0,
                i >= 0,
        {
        }
        assert(d < ceil_div(count, page_size)) by (nonlinear_arith)
            requires
                d == i / page_size,
                page_size > 0,
                0 <= i < count,
        {
            if count % page_size == 0 {
                assert(count == (count / page_size) * page_size);
                assert(d * page_size <= i);
            } else {
                assert(count / page_size * page_size <= count);
            }
        }
    }
}

/// All records of `s` carry distinct store identifiers.
pub open spec fn distinct_ids(s: Seq<VulnRecord>) -> bool {
    forall|i: int, j: int| 0 <= i < j < s.len() ==> (#[trigger] s[i]).id != (#[trigger] s[j]).id
}

/// Two different pages of one search, in any order, over a table whose rows have distinct
/// identifiers share no record: re-querying with the next page never repeats an item.
pub proof fn lemma_pages_disjoint(
    table: Seq<VulnRecord>,
    query: Seq<char>,
    severity: FilterSeverity,
    sort_field: SortField,
    ascending: bool,
    page_size: int,
    p: int,
    q: int,
)
    requires
        distinct_ids(table),
        page_size > 0,
        p >= 0,
        q >= 0,
        p != q,
    ensures
        ({
            let found = matching(table, query, severity);
            let o = ordered(found, sort_field, ascending);
            let a = o.subrange(
                window_start(p, page_size, found.len() as int),
                window_end(p, page_size, found.len() as int),
            );
            let b = o.subrange(
                window_start(q, page_size, found.len() as int),
                window_end(q, page_size, found.len() as int),
            );
            forall|x: int, y: int| 0 <= x < a.len() && 0 <= y < b.len() ==> (#[trigger] a[x]).id != (
            #[trigger] b[y]).id
        }),
{
    let found = matching(table, query, severity);
    lemma_matching_distinct(table, query, severity);
    let o = ordered(found, sort_field, ascending);
    lemma_ordered_len(found, sort_field, ascending);
    lemma_ordered_multiset(found, sort_field, ascending);
    lemma_permutation_distinct(o, found);
    let n = found.len() as int;
    let sa = window_start(p, page_size, n);
    let sb = window_start(q, page_size, n);
    let a = o.subrange(sa, window_end(p, page_size, n));
    let b = o.subrange(sb, window_end(q, page_size, n));
    lemma_pages_partition(n, page_size, p, q, 0);
    assert forall|x: int, y: int| 0 <= x < a.len() && 0 <= y < b.len() implies (#[trigger] a[x]).id
        != (#[trigger] b[y]).id by {
        lemma_pages_partition(n, page_size, p, q, sa + x);
        assert(a[x] == o[sa + x]);
        assert(b[y] == o[sb + y]);
        assert(sa + x != sb + y);
        if sa + x < sb + y {
            assert(o[sa + x].id != o[sb + y].id);
        } else {
            assert(o[sb + y].id != o[sa + x].id);
        }
    }
}

/// A reordering of a sequence with distinct identifiers has distinct identifiers.
proof fn lemma_permutation_distinct(o: Seq<VulnRecord>, s: Seq<VulnRecord>)
    requires
        o.to_multiset() == s.to_multiset(),
        distinct_ids(s),
    ensures
        distinct_ids(o),
{
    assert forall|i: int, j: int| 0 <= i < s.len() && 0 <= j < s.len() && i != j implies s[i] != s[j] by {
        if i < j {
            assert(s[i].id != s[j].id);
        } else {
            assert(s[j].id != s[i].id);
        }
    }
    assert(s.no_duplicates());
    s.lemma_multiset_has_no_duplicates();
    o.lemma_multiset_has_no_duplicates_conv();
    o.to_multiset_ensures();
    s.to_multiset_ensures();
    assert forall|i: int, j: int| 0 <= i < j < o.len() implies (#[trigger] o[i]).id != (#[trigger] o[j]).id by {
        assert(o[i] != o[j]);
        assert(o.contains(o[i]));
        assert(o.contains(o[j]));
        assert(o.to_multiset().count(o[i]) > 0);
        assert(o.to_multiset().count(o[j]) > 0);
        assert(s.to_multiset().count(o[i]) > 0);
        assert(s.to_multiset().count(o[j]) > 0);
        assert(s.contains(o[i]));
        assert(s.contains(o[j]));
        let x = choose|x: int| 0 <= x < s.len() && s[x] == o[i];
        let y = choose|y: int| 0 <= y < s.len() && s[y] == o[j];
        assert(x != y);
        if x < y {
            assert(s[x].id != s[y].id);
        } else {
            assert(s[y].id != s[x].id);
        }
    }
}

proof fn lemma_stable_sorted_multiset(s: Seq<VulnRecord>, field: SortField, ascending: bool)
    ensures
        stable_sorted(s, field, ascending).to_multiset() == s.to_multiset(),
    decreases s.len(),
{
    if s.len() > 0 {
        let o = stable_sorted(s.drop_last(), field, ascending);
        lemma_stable_sorted_multiset(s.drop_last(), field, ascending);
        lemma_insert_position_bounds(o, s.last(), field, ascending);
        assert(stable_sorted(s, field, ascending) == o.insert(
            insert_position(o, s.last(), field, ascending),
            s.last(),
        ));
        vstd::seq_lib::to_multiset_insert(o, insert_position(o, s.last(), field, ascending), s.last());
        assert(s =~= s.drop_last().push(s.last()));
        vstd::seq_lib::to_multiset_build(s.drop_last(), s.last());
    } else {
        assert(stable_sorted(s, field, ascending) =~= s);
    }
}

/// The tiers of `s`, as multisets, added together.
spec fn tier_multisets(s: Seq<VulnRecord>, ascending: bool) -> Multiset<VulnRecord> {
    tier(s, 1, ascending).to_multiset().add(tier(s, 2, ascending).to_multiset()).add(
        tier(s, 3, ascending).to_multiset(),
    ).add(tier(s, 4, ascending).to_multiset())
}

proof fn lemma_tier_multisets(s: Seq<VulnRecord>, ascending: bool)
    ensures
        tier_multisets(s, ascending) == s.to_multiset(),
    decreases s.len(),
{
    broadcast use vstd::multiset::group_multiset_axioms;

    if s.len() == 0 {
        let e = Seq::<VulnRecord>::empty();
        assert(s =~= e);
        e.to_multiset_ensures();
        assert(e.to_multiset() =~= Multiset::<VulnRecord>::empty());
        assert(tier(s, 1, ascending) =~= e);
        assert(tier(s, 2, ascending) =~= e);
        assert(tier(s, 3, ascending) =~= e);
        assert(tier(s, 4, ascending) =~= e);
        assert(tier_multisets(s, ascending) =~= s.to_multiset());
    } else if ascending {
        let init = s.drop_last();
        let l = s.last();
        lemma_tier_multisets(init, ascending);
        assert(s =~= init.push(l));
        vstd::seq_lib::to_multiset_build(init, l);
        vstd::seq_lib::to_multiset_build(tier(init, 1, ascending), l);
        vstd::seq_lib::to_multiset_build(tier(init, 2, ascending), l);
        vstd::seq_lib::to_multiset_build(tier(init, 3, ascending), l);
        vstd::seq_lib::to_multiset_build(tier(init, 4, ascending), l);
        assert(tier_multisets(s, ascending) =~= s.to_multiset());
    } else {
        let tail = s.drop_first();
        let f = s[0];
        lemma_tier_multisets(tail, ascending);
        assert(s.remove(0) =~= tail);
        vstd::seq_lib::to_multiset_remove(s, 0);
        s.to_multiset_ensures();
        assert(s.contains(f));
        assert(s.to_multiset() =~= tail.to_multiset().insert(f));
        vstd::seq_lib::to_multiset_build(tier(tail, 1, ascending), f);
        vstd::seq_lib::to_multiset_build(tier(tail, 2, ascending), f);
        vstd::seq_lib::to_multiset_build(tier(tail, 3, ascending), f);
        vstd::seq_lib::to_multiset_build(tier(tail, 4, ascending), f);
        assert(tier_multisets(s, ascending) =~= s.to_multiset());
    }
}

proof fn lemma_ordered_multiset(found: Seq<VulnRecord>, sort_field: SortField, ascending: bool)
    ensures
        ordered(found, sort_field, ascending).to_multiset() == found.to_multiset(),
{
    if sort_field == SortField::Severity {
        let t1 = tier(found, 1, ascending);
        let t2 = tier(found, 2, ascending);
        let t3 = tier(found, 3, ascending);
        let t4 = tier(found, 4, ascending);
        assert(tiers_below(found, 1, ascending) =~= Seq::<VulnRecord>::empty());
        assert(tiers_below(found, 2, ascending) =~= t1);
        assert(tiers_below(found, 3, ascending) == t1 + t2);
        assert(tiers_below(found, 4, ascending) == t1 + t2 + t3);
        assert(tiers_below(found, 5, ascending) == t1 + t2 + t3 + t4);
        vstd::seq_lib::lemma_multiset_commutative(t1, t2);
        vstd::seq_lib::lemma_multiset_commutative(t1 + t2, t3);
        vstd::seq_lib::lemma_multiset_commutative(t1 + t2 + t3, t4);
        lemma_tier_multisets(found, ascending);
    } else if sort_field == SortField::CVE || sort_field == SortField::Date {
        lemma_stable_sorted_multiset(found, sort_field, ascending);
    } else if !ascending {
        found.lemma_reverse_to_multiset();
    }
}

proof fn lemma_matching_distinct(s: Seq<VulnRecord>, query: Seq<char>, severity: FilterSeverity)
    requires
        distinct_ids(s),
    ensures
        distinct_ids(matching(s, query, severity)),
        forall|k: int|
            0 <= k < matching(s, query, severity).len() ==> exists|m: int|
                0 <= m < s.len() && #[trigger] matching(s, query, severity)[k] == s[m],
    decreases s.len(),
{
    if s.len() > 0 {
        let init = s.drop_last();
        assert forall|i: int, j: int| 0 <= i < j < init.len() implies (#[trigger] init[i]).id != (
        #[trigger] init[j]).id by {
            assert(init[i] == s[i] && init[j] == s[j]);
        }
        lemma_matching_distinct(init, query, severity);
        let m0 = matching(init, query, severity);
        assert forall|k: int| 0 <= k < m0.len() implies exists|m: int|
            0 <= m < s.len() - 1 && #[trigger] m0[k] == s[m] by {
            let m = choose|m: int| 0 <= m < init.len() && #[trigger] m0[k] == init[m];
            assert(m0[k] == s[m]);
        }
        if matches_search(s.last(), query, severity) {
            let m1 = m0.push(s.last());
            assert forall|i: int, j: int| 0 <= i < j < m1.len() implies (#[trigger] m1[i]).id != (
            #[trigger] m1[j]).id by {
                if j == m1.len() - 1 {
                    let m = choose|m: int| 0 <= m < s.len() - 1 && #[trigger] m0[i] == s[m];
                    assert(m1[i] == s[m]);
                    assert(s[m].id != s[s.len() - 1].id);
                } else {
                    assert(m1[i] == m0[i] && m1[j] == m0[j]);
                }
            }
            assert forall|k: int| 0 <= k < m1.len() implies exists|m: int|
                0 <= m < s.len() && #[trigger] m1[k] == s[m] by {
                if k == m1.len() - 1 {
                    assert(m1[k] == s[s.len() - 1]);
                } else {
                    let m = choose|m: int| 0 <= m < s.len() - 1 && #[trigger] m0[k] == s[m];
                    assert(m1[k] == s[m]);
                }
            }
        } else {
            assert forall|k: int| 0 <= k < m0.len() implies exists|m: int|
                0 <= m < s.len() && #[trigger] m0[k] == s[m] by {
                let m = choose|m: int| 0 <= m < s.len() - 1 && #[trigger] m0[k] == s[m];
            }
        }
    }
}

/// How many records of `s` have severity rank `t`.
pub open spec fn count_rank(s: Seq<VulnRecord>, t: int) -> nat
    decreases s.len(),
{
    if s.len() == 0 {
        0
    } else {
        count_rank(s.drop_last(), t) + if severity_rank_spec(s.last().severity) == t {
            1nat
        } else {
            0nat
        }
    }
}

proof fn lemma_count_rank_bound(s: Seq<VulnRecord>, t: int)
    ensures
        count_rank(s, t) <= s.len(),
    decreases s.len(),
{
    if s.len() > 0 {
        lemma_count_rank_bound(s.drop_last(), t);
    }
}

/// How many records there are, and how many of them are High, Medium and Low.
#[derive(PartialEq, Eq, Structural, Clone, Copy, Debug)]
pub struct SeverityCounts {
    pub total: usize,
    pub high: usize,
    pub medium: usize,
    pub low: usize,
}

/// Counts records by severity.
pub fn severity_counts(items: &Vec<Vulnerability>) -> (r: SeverityCounts)
    ensures
        r.total == items@.len(),
        r.high == count_rank(records(items@), 1),
        r.medium == count_rank(records(items@), 2),
        r.low == count_rank(records(items@), 3),
{
    let ghost all = records(items@);
    let n = items.len();
    let mut high: usize = 0;
    let mut medium: usize = 0;
    let mut low: usize = 0;
    let mut i: usize = 0;
    assert(all.subrange(0, 0) =~= Seq::<VulnRecord>::empty());
    while i < n
        invariant
            n == items@.len(),
            all == records(items@),
            i <= n,
            high == count_rank(all.subrange(0, i as int), 1),
            medium == count_rank(all.subrange(0, i as int), 2),
            low == count_rank(all.subrange(0, i as int), 3),
        decreases n - i,
    {
        let ghost seen = all.subrange(0, i + 1);
        assert(seen.drop_last() =~= all.subrange(0, i as int));
        assert(seen.last() == items@[i as int]@);
        proof {
            lemma_count_rank_bound(all.subrange(0, i as int), 1);
            lemma_count_rank_bound(all.subrange(0, i as int), 2);
            lemma_count_rank_bound(all.subrange(0, i as int), 3);
        }
        let rank = severity_rank(items[i].severity.as_str());
        if rank == 1 {
            high = high + 1;
        } else if rank == 2 {
            medium = medium + 1;
        } else if rank == 3 {
            low = low + 1;
        }
        i = i + 1;
    }
    assert(all.subrange(0, n as int) =~= all);
    SeverityCounts { total: n, high, medium, low }
}

/// The whole percentage that `part` is of `total`, rounded down; 0 of nothing.
pub fn percent_of(part: usize, total: usize) -> (r: usize)
    requires
        part <= total,
        total <= usize::MAX / 100,
    ensures
        total == 0 ==> r == 0,
        total > 0 ==> r as int == (part as int) * 100 / (total as int),
{
    if total == 0 {
        0
    } else {
        assert(part * 100 <= total * 100) by (nonlinear_arith)
            requires
                part <= total,
        {
        }
        part * 100 / total
    }
}

/// Calendar order of (year, month, day) triples.
pub open spec fn date_le(a: (int, int, int), b: (int, int, int)) -> bool {
    a.0 < b.0 || (a.0 == b.0 && (a.1 < b.1 || (a.1 == b.1 && a.2 <= b.2)))
}

/// `a` may stand before `b` when ordering by business key or by date in the given
/// direction; records without a date come after every dated record in both directions.
pub open spec fn record_in_order(a: VulnRecord, b: VulnRecord, field: SortField, ascending: bool) -> bool {
    if field == SortField::CVE {
        if ascending {
            lex_le(a.cve_id, b.cve_id)
        } else {
            lex_le(b.cve_id, a.cve_id)
        }
    } else {
        match (a.published_date, b.published_date) {
            (Some(x), Some(y)) => if ascending {
                date_le(x, y)
            } else {
                date_le(y, x)
            },
            (Some(_), None) => true,
            (None, Some(_)) => false,
            (None, None) => true,
        }
    }
}

proof fn lemma_record_order_total(a: VulnRecord, b: VulnRecord, field: SortField, ascending: bool)
    ensures
        record_in_order(a, b, field, ascending) || record_in_order(b, a, field, ascending),
{
    lemma_lex_total(a.cve_id, b.cve_id);
}

proof fn lemma_record_order_trans(
    a: VulnRecord,
    b: VulnRecord,
    c: VulnRecord,
    field: SortField,
    ascending: bool,
)
    requires
        record_in_order(a, b, field, ascending),
        record_in_order(b, c, field, ascending),
    ensures
        record_in_order(a, c, field, ascending),
{
    if field == SortField::CVE {
        if ascending {
            lemma_lex_trans(a.cve_id, b.cve_id, c.cve_id);
        } else {
            lemma_lex_trans(c.cve_id, b.cve_id, a.cve_id);
        }
    }
}

fn date_before_or_same(a: &crate::dates::Date, b: &crate::dates::Date) -> (r: bool)
    ensures
        r == date_le(a.triple(), b.triple()),
{
    a.year < b.year || (a.year == b.year && (a.month < b.month || (a.month == b.month && a.day
        <= b.day)))
}

fn records_in_order(a: &Vulnerability, b: &Vulnerability, field: SortField, ascending: bool) -> (r: bool)
    ensures
        r == record_in_order(a@, b@, field, ascending),
{
    if field == SortField::CVE {
        if ascending {
            lex_le_text(a.cve_id.as_str(), b.cve_id.as_str())
        } else {
            lex_le_text(b.cve_id.as_str(), a.cve_id.as_str())
        }
    } else {
        match (&a.published_date, &b.published_date) {
            (Some(x), Some(y)) => if ascending {
                date_before_or_same(x, y)
            } else {
                date_before_or_same(y, x)
            },
            (Some(_), None) => true,
            (None, Some(_)) => false,
            (None, None) => true,
        }
    }
}

/// Where a stable insertion puts `x` into the ordered `o`: after every leading record that
/// may stand before it, so `x` follows the records it ties with.
pub open spec fn insert_position(o: Seq<VulnRecord>, x: VulnRecord, field: SortField, ascending: bool) -> int
    decreases o.len(),
{
    if o.len() == 0 {
        0
    } else if record_in_order(o[0], x, field, ascending) {
        1 + insert_position(o.drop_first(), x, field, ascending)
    } else {
        0
    }
}

/// The records of `s` ordered by key or date, each inserted in input order at its
/// `insert_position`: records that tie keep their input order.
pub open spec fn stable_sorted(s: Seq<VulnRecord>, field: SortField, ascending: bool) -> Seq<VulnRecord>
    decreases s.len(),
{
    if s.len() == 0 {
        Seq::<VulnRecord>::empty()
    } else {
        let o = stable_sorted(s.drop_last(), field, ascending);
        o.insert(insert_position(o, s.last(), field, ascending), s.last())
    }
}

proof fn lemma_insert_position_bounds(o: Seq<VulnRecord>, x: VulnRecord, field: SortField, ascending: bool)
    ensures
        0 <= insert_position(o, x, field, ascending) <= o.len(),
    decreases o.len(),
{
    if o.len() > 0 {
        lemma_insert_position_bounds(o.drop_first(), x, field, ascending);
    }
}

proof fn lemma_stable_sorted_len(s: Seq<VulnRecord>, field: SortField, ascending: bool)
    ensures
        stable_sorted(s, field, ascending).len() == s.len(),
    decreases s.len(),
{
    if s.len() > 0 {
        let o = stable_sorted(s.drop_last(), field, ascending);
        lemma_stable_sorted_len(s.drop_last(), field, ascending);
        lemma_insert_position_bounds(o, s.last(), field, ascending);
    }
}

/// Orders records by business key or by publication date, ascending or descending, keeping
/// the order of records that tie; records without a date come last in both directions.
pub fn order_by_key_or_date(items: &Vec<Vulnerability>, sort_field: SortField, sort_ascending: bool) -> (r: Vec<
    Vulnerability,
>)
    requires
        sort_field == SortField::CVE || sort_field == SortField::Date,
    ensures
        records(r@) == stable_sorted(records(items@), sort_field, sort_ascending),
        records(r@).to_multiset() == records(items@).to_multiset(),
        forall|i: int, j: int|
            0 <= i < j < r@.len() ==> record_in_order(
                (#[trigger] r@[i])@,
                (#[trigger] r@[j])@,
                sort_field,
                sort_ascending,
            ),
{
    let n = items.len();
    let ghost all = records(items@);
    let mut out: Vec<Vulnerability> = Vec::new();
    let mut i: usize = 0;
    assert(records(out@) =~= all.subrange(0, 0));
    while i < n
        invariant
            n == items@.len(),
            all == records(items@),
            i <= n,
            records(out@) == stable_sorted(all.subrange(0, i as int), sort_field, sort_ascending),
            records(out@).to_multiset() == all.subrange(0, i as int).to_multiset(),
            forall|a: int, b: int|
                0 <= a < b < out@.len() ==> record_in_order(
                    (#[trigger] out@[a])@,
                    (#[trigger] out@[b])@,
                    sort_field,
                    sort_ascending,
                ),
        decreases n - i,
    {
        let x = items[i].clone_record();
        let mut p: usize = 0;
        let ghost ov = records(out@);
        assert(ov.subrange(0, ov.len() as int) =~= ov);
        while p < out.len() && records_in_order(&out[p], &x, sort_field, sort_ascending)
            invariant
                p <= out@.len(),
                ov == records(out@),
                insert_position(ov, x@, sort_field, sort_ascending) == p + insert_position(
                    ov.subrange(p as int, ov.len() as int),
                    x@,
                    sort_field,
                    sort_ascending,
                ),
                forall|q: int| 0 <= q < p ==> record_in_order(
                    (#[trigger] out@[q])@,
                    x@,
                    sort_field,
                    sort_ascending,
                ),
            decreases out@.len() - p,
        {
            assert(ov.subrange(p as int, ov.len() as int)[0] == out@[p as int]@);
            assert(ov.subrange(p as int, ov.len() as int).drop_first() =~= ov.subrange(p + 1, ov.len() as int));
            p = p + 1;
        }
        if p < out.len() {
            assert(ov.subrange(p as int, ov.len() as int)[0] == out@[p as int]@);
        }
        assert(insert_position(ov, x@, sort_field, sort_ascending) == p);
        let ghost old_out = out@;
        proof {
            assert forall|q: int| p <= q < old_out.len() implies record_in_order(
                x@,
                (#[trigger] old_out[q])@,
                sort_field,
                sort_ascending,
            ) by {
                lemma_record_order_total(old_out[p as int]@, x@, sort_field, sort_ascending);
                if q > p {
                    lemma_record_order_trans(x@, old_out[p as int]@, old_out[q]@, sort_field, sort_ascending);
                }
            }
        }
        out.insert(p, x);
        proof {
            let ns = out@;
            assert(ns == old_out.insert(p as int, x));
            assert forall|a: int, b: int| 0 <= a < b < ns.len() implies record_in_order(
                (#[trigger] ns[a])@,
                (#[trigger] ns[b])@,
                sort_field,
                sort_ascending,
            ) by {
                if b < p {
                    assert(ns[a] == old_out[a] && ns[b] == old_out[b]);
                } else if b == p {
                    assert(ns[a] == old_out[a]);
                } else if a < p {
                    assert(ns[a] == old_out[a] && ns[b] == old_out[b - 1]);
                    lemma_record_order_trans(old_out[a]@, x@, old_out[b - 1]@, sort_field, sort_ascending);
                } else if a == p {
                    assert(ns[b] == old_out[b - 1]);
                } else {
                    assert(ns[a] == old_out[a - 1] && ns[b] == old_out[b - 1]);
                }
            }
            assert(records(ns) =~= records(old_out).insert(p as int, x@));
            vstd::seq_lib::to_multiset_insert(records(old_out), p as int, x@);
            let seen = all.subrange(0, i + 1);
            assert(seen =~= all.subrange(0, i as int).push(x@));
            assert(seen.drop_last() =~= all.subrange(0, i as int));
            assert(seen.last() == x@);
            vstd::seq_lib::to_multiset_build(all.subrange(0, i as int), x@);
        }
        i = i + 1;
    }
    assert(all.subrange(0, n as int) =~= all);
    out
}

/// `found` in the order a search asks for: severity order; by key or date, ties keeping
/// their order; or insertion order, reversed when descending.
pub open spec fn ordered(found: Seq<VulnRecord>, sort_field: SortField, ascending: bool) -> Seq<VulnRecord> {
    if sort_field == SortField::Severity {
        severity_order(found, ascending)
    } else if sort_field == SortField::CVE || sort_field == SortField::Date {
        stable_sorted(found, sort_field, ascending)
    } else if ascending {
        found
    } else {
        found.reverse()
    }
}

/// Orders records as a search asks: by severity tier, by key, by date, or by insertion.
pub fn order_records(items: &Vec<Vulnerability>, sort_field: SortField, sort_ascending: bool) -> (r: Vec<
    Vulnerability,
>)
    ensures
        records(r@) == ordered(records(items@), sort_field, sort_ascending),
        sort_field == SortField::CVE || sort_field == SortField::Date ==> forall|i: int, j: int|
            0 <= i < j < r@.len() ==> record_in_order(
                (#[trigger] r@[i])@,
                (#[trigger] r@[j])@,
                sort_field,
                sort_ascending,
            ),
{
    if sort_field == SortField::Severity {
        order_by_severity(items, sort_ascending)
    } else if sort_field == SortField::CVE || sort_field == SortField::Date {
        order_by_key_or_date(items, sort_field, sort_ascending)
    } else {
        let n = items.len();
        let ghost all = records(items@);
        let mut out: Vec<Vulnerability> = Vec::new();
        let mut k: usize = 0;
        assert(records(out@) =~= Seq::<VulnRecord>::empty());
        while k < n
            invariant
                n == items@.len(),
                all == records(items@),
                k <= n,
                records(out@) == if sort_ascending {
                    all.subrange(0, k as int)
                } else {
                    all.subrange(n - k, n as int).reverse()
                },
            decreases n - k,
        {
            let idx = if sort_ascending {
                k
            } else {
                n - 1 - k
            };
            let ghost before = out@;
            out.push(items[idx].clone_record());
            assert(records(out@) =~= records(before).push(items@[idx as int]@));
            if sort_ascending {
                assert(all.subrange(0, k + 1) =~= all.subrange(0, k as int).push(all[k as int]));
            } else {
                assert(all.subrange(n - k - 1, n as int).reverse() =~= all.subrange(n - k, n as int).reverse().push(
                    all[n - k - 1],
                ));
            }
            k = k + 1;
        }
        assert(all.subrange(0, n as int) =~= all);
        out
    }
}

/// One page of a search, with the number of pages that the whole result fills.
pub struct SearchPage {
    pub items: Vec<Vulnerability>,
    pub total_pages: usize,
}

/// Searches a list of records: those matching the text and the severity filter, in the
/// order asked for, page `page` of them, and the number of pages.
pub fn search_records(
    items: &Vec<Vulnerability>,
    query: &str,
    severity: FilterSeverity,
    sort_field: SortField,
    sort_ascending: bool,
    page: usize,
    page_size: usize,
) -> (r: SearchPage)
    requires
        page_size > 0,
    ensures
        ({
            let found = matching(records(items@), query@, severity);
            let o = ordered(found, sort_field, sort_ascending);
            &&& records(r.items@) == o.subrange(
                window_start(page as int, page_size as int, found.len() as int),
                window_end(page as int, page_size as int, found.len() as int),
            )
            &&& r.total_pages == ceil_div(found.len() as int, page_size as int)
        }),
{
    let found = filter_records(items, query, severity);
    let ordered = order_records(&found, sort_field, sort_ascending);
    proof {
        lemma_ordered_len(records(found@), sort_field, sort_ascending);
    }
    let shown = paginate(&ordered, page, page_size);
    SearchPage { items: shown, total_pages: total_pages(found.len(), page_size) }
}

proof fn lemma_ordered_len(found: Seq<VulnRecord>, sort_field: SortField, ascending: bool)
    ensures
        ordered(found, sort_field, ascending).len() == found.len(),
{
    if sort_field == SortField::Severity {
        lemma_tier_lengths(found, ascending);
        assert(tiers_below(found, 1, ascending) =~= Seq::<VulnRecord>::empty());
        assert(tiers_below(found, 2, ascending) == tiers_below(found, 1, ascending) + tier(found, 1, ascending));
        assert(tiers_below(found, 3, ascending) == tiers_below(found, 2, ascending) + tier(found, 2, ascending));
        assert(tiers_below(found, 4, ascending) == tiers_below(found, 3, ascending) + tier(found, 3, ascending));
        assert(tiers_below(found, 5, ascending) == tiers_below(found, 4, ascending) + tier(found, 4, ascending));
    } else if sort_field == SortField::CVE || sort_field == SortField::Date {
        lemma_stable_sorted_len(found, sort_field, ascending);
    }
}

proof fn lemma_tier_lengths(s: Seq<VulnRecord>, ascending: bool)
    ensures
        tier(s, 1, ascending).len() + tier(s, 2, ascending).len() + tier(s, 3, ascending).len() + tier(
            s,
            4,
            ascending,
        ).len() == s.len(),
    decreases s.len(),
{
    if s.len() > 0 {
        if ascending {
            lemma_tier_lengths(s.drop_last(), ascending);
        } else {
            lemma_tier_lengths(s.drop_first(), ascending);
        }
    }
}

/// With no text and no severity filter every record matches, in its order.
pub proof fn lemma_empty_search_matches_all(s: Seq<VulnRecord>)
    ensures
        matching(s, Seq::<char>::empty(), FilterSeverity::All) == s,
    decreases s.len(),
{
    if s.len() > 0 {
        lemma_empty_search_matches_all(s.drop_last());
        assert(s.drop_last().push(s.last()) =~= s);
    } else {
        assert(matching(s, Seq::<char>::empty(), FilterSeverity::All) =~= s);
    }
}

/// A search with no text and no severity filter, in insertion order, whose first page is
/// at least as large as the table, shows every record of the table on that one page.
pub proof fn lemma_first_page_shows_all(table: Seq<VulnRecord>, page_size: int)
    requires
        0 < table.len() <= page_size,
    ensures
        ({
            let found = matching(table, Seq::<char>::empty(), FilterSeverity::All);
            &&& ordered(found, SortField::NoSort, true).subrange(
                window_start(0, page_size, found.len() as int),
                window_end(0, page_size, found.len() as int),
            ) == table
            &&& ceil_div(found.len() as int, page_size) == 1
        }),
{
    lemma_empty_search_matches_all(table);
    assert(table.subrange(0, table.len() as int) =~= table);
    let n = table.len() as int;
    if n == page_size {
        assert(n % page_size == 0 && n / page_size == 1) by (nonlinear_arith)
            requires
                n == page_size,
                n > 0,
        {
        }
    } else {
        assert(n % page_size == n && n / page_size == 0) by (nonlinear_arith)
            requires
                0 < n < page_size,
        {
        }
    }
}

} // verus!
