use vulndb::dates::Date;
use vulndb::model::{FilterSeverity, SortField, Vulnerability};
use vulndb::query::{
    filter_records, order_by_severity, order_records, page_window, paginate, percent_of, search_records,
    severity_counts, severity_rank, total_pages,
};
use vulndb::sql::{build_search, like_pattern_of, QueryError, SqlValue};

fn vuln(id: i64, key: &str, severity: &str, description: Option<&str>) -> Vulnerability {
    Vulnerability {
        vulnerability_id: Some(id),
        cve_id: key.to_string(),
        description: description.map(|d| d.to_string()),
        severity: severity.to_string(),
        impact: None,
        mitigation: None,
        published_date: Date::from_ymd_opt(2020, 1, id as u32),
    }
}

fn table() -> Vec<Vulnerability> {
    vec![
        vuln(1, "CVE-2020-0001", "Low", Some("buffer overflow")),
        vuln(2, "CVE-2020-0002", "High", Some("SQL injection")),
        vuln(3, "CVE-2020-0003", "Unknown", None),
        vuln(4, "CVE-2020-0004", "Medium", Some("Overflow in parser")),
        vuln(5, "CVE-2020-0005", "HIGH", Some("race")),
        vuln(6, "CVE-2020-0006", "CRITICAL", Some("remote code")),
        vuln(7, "CVE-2020-0007", "low", Some("info leak")),
    ]
}

fn ids(v: &[Vulnerability]) -> Vec<i64> {
    v.iter().map(|x| x.vulnerability_id.unwrap()).collect()
}

#[test]
fn pages_of_a_search_do_not_overlap() {
    let t = table();
    let first = search_records(&t, "", FilterSeverity::All, SortField::NoSort, true, 0, 3);
    let second = search_records(&t, "", FilterSeverity::All, SortField::NoSort, true, 1, 3);
    assert_eq!(first.total_pages, 3);
    assert_eq!(ids(&first.items), vec![1, 2, 3]);
    assert_eq!(ids(&second.items), vec![4, 5, 6]);
    for a in &first.items {
        assert!(second.items.iter().all(|b| b.vulnerability_id != a.vulnerability_id));
    }
    let last = search_records(&t, "", FilterSeverity::All, SortField::NoSort, true, 2, 3);
    assert_eq!(ids(&last.items), vec![7]);
    let beyond = search_records(&t, "", FilterSeverity::All, SortField::NoSort, true, 9, 3);
    assert!(beyond.items.is_empty());
}

#[test]
fn total_pages_rounds_up() {
    assert_eq!(total_pages(0, 15), 0);
    assert_eq!(total_pages(15, 15), 1);
    assert_eq!(total_pages(16, 15), 2);
    assert_eq!(total_pages(7, 1), 7);
    assert_eq!(page_window(2, 3, 7), (6, 7));
    assert_eq!(page_window(5, 3, 7), (7, 7));
    assert_eq!(ids(&paginate(&table(), 1, 2)), vec![3, 4]);
}

#[test]
fn empty_search_result_has_no_pages() {
    let page = search_records(&Vec::new(), "", FilterSeverity::All, SortField::NoSort, true, 0, 10);
    assert!(page.items.is_empty());
    assert_eq!(page.total_pages, 0);
}

#[test]
fn severity_order_puts_tiers_first_in_both_directions() {
    let up = order_by_severity(&table(), true);
    assert_eq!(ids(&up), vec![2, 5, 4, 1, 7, 3, 6]);
    let down = order_by_severity(&table(), false);
    assert_eq!(ids(&down), vec![5, 2, 4, 7, 1, 6, 3]);
    for list in [&up, &down] {
        let ranks: Vec<u8> = list.iter().map(|v| severity_rank(&v.severity)).collect();
        let mut sorted = ranks.clone();
        sorted.sort();
        assert_eq!(ranks, sorted);
    }
}

#[test]
fn search_text_matches_key_or_description_in_any_case() {
    let t = table();
    assert_eq!(ids(&filter_records(&t, "overflow", FilterSeverity::All)), vec![1, 4]);
    assert_eq!(ids(&filter_records(&t, "2020-0003", FilterSeverity::All)), vec![3]);
    assert_eq!(ids(&filter_records(&t, "", FilterSeverity::High)), vec![2, 5]);
    assert_eq!(ids(&filter_records(&t, "o", FilterSeverity::Low)), vec![1, 7]);
    let page = search_records(&t, "OVERFLOW", FilterSeverity::Medium, SortField::CVE, false, 0, 10);
    assert_eq!(ids(&page.items), vec![4]);
    assert_eq!(page.total_pages, 1);
}

#[test]
fn statistics_count_each_severity() {
    let c = severity_counts(&table());
    assert_eq!((c.total, c.high, c.medium, c.low), (7, 2, 1, 2));
    assert_eq!(percent_of(c.high, c.total), 28);
    assert_eq!(percent_of(0, 0), 0);
}

#[test]
fn search_statements_carry_predicates_order_and_page() {
    let st = build_search("50%_x", 2, 15, SortField::Severity, false, FilterSeverity::High).unwrap();
    assert_eq!(
        st.count.sql,
        "SELECT COUNT(*) FROM vulnerabilities WHERE (cve_id LIKE ? ESCAPE '\\' OR description LIKE ? ESCAPE '\\') AND LOWER(severity) = ?"
    );
    assert!(st.select.sql.starts_with("SELECT vulnerability_id, cve_id, description, severity, impact, mitigation, published_date FROM vulnerabilities WHERE "));
    assert!(st.select.sql.ends_with(" ORDER BY CASE UPPER(severity) WHEN 'HIGH' THEN 1 WHEN 'MEDIUM' THEN 2 WHEN 'LOW' THEN 3 ELSE 4 END ASC, vulnerability_id DESC LIMIT ? OFFSET ?"));
    assert_eq!(st.count.params.len(), 3);
    match &st.count.params[0] {
        SqlValue::Text(p) => assert_eq!(p, "%50\\%\\_x%"),
        other => panic!("unexpected {:?}", other),
    }
    match &st.count.params[2] {
        SqlValue::Text(p) => assert_eq!(p, "high"),
        other => panic!("unexpected {:?}", other),
    }
    assert_eq!(st.select.params.len(), 5);
    assert!(matches!(st.select.params[3], SqlValue::Integer(15)));
    assert!(matches!(st.select.params[4], SqlValue::Integer(30)));
}

#[test]
fn search_statements_without_predicates() {
    let st = build_search("", 0, 10, SortField::Date, true, FilterSeverity::All).unwrap();
    assert_eq!(st.count.sql, "SELECT COUNT(*) FROM vulnerabilities");
    assert!(st.count.params.is_empty());
    assert!(st.select.sql.ends_with("FROM vulnerabilities ORDER BY published_date IS NULL ASC, published_date ASC, vulnerability_id ASC LIMIT ? OFFSET ?"));
    assert_eq!(like_pattern_of("a\\b"), "%a\\\\b%");
}

#[test]
fn search_statements_refuse_bad_pages() {
    assert_eq!(
        build_search("", 0, 0, SortField::CVE, true, FilterSeverity::All).err(),
        Some(QueryError::EmptyPage)
    );
    assert_eq!(
        build_search("", usize::MAX, 2, SortField::CVE, true, FilterSeverity::All).err(),
        Some(QueryError::PageOutOfRange)
    );
}

#[test]
fn records_order_by_key_date_or_insertion() {
    let mut t = table();
    t[2].published_date = None;
    t[0].published_date = Date::from_ymd_opt(2021, 6, 1);
    assert_eq!(ids(&order_records(&t, SortField::CVE, false)), vec![7, 6, 5, 4, 3, 2, 1]);
    assert_eq!(ids(&order_records(&t, SortField::CVE, true)), vec![1, 2, 3, 4, 5, 6, 7]);
    assert_eq!(ids(&order_records(&t, SortField::Date, true)), vec![2, 4, 5, 6, 7, 1, 3]);
    assert_eq!(ids(&order_records(&t, SortField::Date, false)), vec![1, 7, 6, 5, 4, 2, 3]);
    assert_eq!(ids(&order_records(&t, SortField::NoSort, false)), vec![7, 6, 5, 4, 3, 2, 1]);
    assert_eq!(ids(&order_records(&t, SortField::Severity, true)), vec![2, 5, 4, 1, 7, 3, 6]);
    let page = search_records(&t, "", FilterSeverity::All, SortField::Date, false, 1, 3);
    assert_eq!(ids(&page.items), vec![5, 4, 2]);
    assert_eq!(page.total_pages, 3);
}

#[test]
fn records_with_equal_dates_keep_their_order() {
    let mut t = table();
    for v in t.iter_mut() {
        v.published_date = Date::from_ymd_opt(2020, 5, 5);
    }
    t[5].published_date = Date::from_ymd_opt(2019, 1, 1);
    assert_eq!(ids(&order_records(&t, SortField::Date, true)), vec![6, 1, 2, 3, 4, 5, 7]);
    assert_eq!(ids(&order_records(&t, SortField::Date, false)), vec![1, 2, 3, 4, 5, 7, 6]);
    let a = search_records(&t, "", FilterSeverity::All, SortField::Date, false, 1, 3);
    let b = search_records(&t, "", FilterSeverity::All, SortField::Date, false, 1, 3);
    assert_eq!(ids(&a.items), ids(&b.items));
    let first = search_records(&t, "", FilterSeverity::All, SortField::Date, false, 0, 3);
    assert!(a.items.iter().all(|x| first.items.iter().all(|y| x.vulnerability_id != y.vulnerability_id)));
}

#[test]
fn fixed_statements_have_their_text() {
    assert!(vulndb::sql::upsert_statement().starts_with(
        "INSERT OR REPLACE INTO vulnerabilities (cve_id, description, severity, impact, mitigation, published_date)"
    ));
    assert!(vulndb::enrich::candidates_query().contains("UPPER(severity) = 'UNKNOWN'"));
    assert!(vulndb::enrich::candidates_query().ends_with("LIMIT ?"));
    assert_eq!(vulndb::schema::current_version_query(), "SELECT COALESCE(MAX(version), 0) FROM schema_version");
    assert!(vulndb::schema::ledger_ddl().starts_with("CREATE TABLE IF NOT EXISTS schema_version"));
    assert_eq!(
        vulndb::schema::record_version_statement(),
        "INSERT INTO schema_version (version, description) VALUES (?1, ?2)"
    );
}
