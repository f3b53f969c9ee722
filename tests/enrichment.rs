use vulndb::dates::Date;
use vulndb::enrich::{
    apply_enrichment, get_english_description, get_severity, needs_enrichment, plan_enrichment,
    published_date_of, NvdCve, NvdCvssMetric, NvdDescription,
};
use vulndb::feed::plan_import;
use vulndb::model::{FilterSeverity, SortField, Vulnerability};
use vulndb::query::search_records;
use vulndb::sql::{build_update_statement, SqlValue};

fn stub(description: &str, rating: Option<&str>, published: &str) -> NvdCve {
    NvdCve {
        id: "CVE-2020-0001".to_string(),
        descriptions: vec![
            NvdDescription { lang: "es".to_string(), value: "Un fallo".to_string() },
            NvdDescription { lang: "en".to_string(), value: description.to_string() },
        ],
        metrics: Some(vec![
            NvdCvssMetric { source: "a".to_string(), severity: None },
            NvdCvssMetric { source: "b".to_string(), severity: rating.map(|r| r.to_string()) },
        ]),
        published: published.to_string(),
    }
}

fn known() -> Vulnerability {
    Vulnerability {
        vulnerability_id: Some(1),
        cve_id: "CVE-2020-0001".to_string(),
        description: Some("Known text".to_string()),
        severity: "Low".to_string(),
        impact: Some("impact".to_string()),
        mitigation: Some("patch".to_string()),
        published_date: Date::from_ymd_opt(2019, 5, 4),
    }
}

#[test]
fn enrichment_leaves_known_fields_alone() {
    let v = known();
    assert!(!needs_enrichment(&v));
    let u = plan_enrichment(&v, &stub("Other text", Some("HIGH"), "2021-01-01T00:00:00.000"));
    assert!(u.is_empty());
    assert!(build_update_statement(&v.cve_id, &u).is_none());
    let after = apply_enrichment(&v, &u);
    assert_eq!(after.description, v.description);
    assert_eq!(after.severity, "Low");
    assert_eq!(after.published_date, v.published_date);
}

#[test]
fn enrichment_fills_unknown_fields_and_converges() {
    let mut v = known();
    v.description = Some("   ".to_string());
    v.severity = "UNKNOWN".to_string();
    v.published_date = None;
    assert!(needs_enrichment(&v));
    let source = stub("A remote flaw", Some("high"), "2021-03-04T10:15:00.000");
    let u = plan_enrichment(&v, &source);
    let st = build_update_statement(&v.cve_id, &u).unwrap();
    assert_eq!(
        st.sql,
        "UPDATE vulnerabilities SET description = ?, severity = ?, published_date = ? WHERE cve_id = ?"
    );
    assert_eq!(st.params.len(), 4);
    assert!(matches!(&st.params[3], SqlValue::Text(k) if k == "CVE-2020-0001"));
    let once = apply_enrichment(&v, &u);
    assert_eq!(once.description, Some("A remote flaw".to_string()));
    assert_eq!(once.severity, "High");
    assert_eq!(once.published_date, Date::from_ymd_opt(2021, 3, 4));
    assert_eq!(once.impact, v.impact);
    let again = plan_enrichment(&once, &source);
    assert!(again.is_empty());
    assert!(build_update_statement(&once.cve_id, &again).is_none());
}

#[test]
fn enrichment_updates_only_the_missing_column() {
    let mut v = known();
    v.severity = "Unknown".to_string();
    let u = plan_enrichment(&v, &stub("x", Some("MEDIUM"), "2021-01-01"));
    let st = build_update_statement(&v.cve_id, &u).unwrap();
    assert_eq!(st.sql, "UPDATE vulnerabilities SET severity = ? WHERE cve_id = ?");
    assert!(matches!(&st.params[0], SqlValue::Text(s) if s == "Medium"));
}

#[test]
fn enrichment_ignores_unusable_source_values() {
    let mut v = known();
    v.severity = "Unknown".to_string();
    v.published_date = None;
    let u = plan_enrichment(&v, &stub("x", Some("CRITICAL"), "2021"));
    assert!(u.is_empty());
    assert_eq!(get_severity(&None), None);
    assert_eq!(published_date_of("2021-13-01T00:00"), None);
    assert_eq!(published_date_of("2020-02-29T00:00"), Date::from_ymd_opt(2020, 2, 29));
    assert_eq!(get_english_description(&Vec::new()), None);
}

#[test]
fn import_search_and_enrich_end_to_end() {
    let feed = "Name,Status,Description,References,Phase,Votes,Comments\n\
                CVE-2020-0001,Entry,First flaw,,Modified (20200101),,\n\
                CVE-2020-0002,Candidate,Second flaw,,,,\n\
                NOT-A-KEY,Entry,Bad,,,,\n\
                CVE-2020-0003,Low,Third flaw,,2020-03-03,,\n\
                CVE-20-0004,Entry,Bad year,,,,\n";
    let plan = plan_import(feed).unwrap();
    assert_eq!(plan.skipped.len(), 2);
    let mut table: Vec<Vulnerability> = Vec::new();
    for v in plan.batches.into_iter().flatten() {
        let mut stored = v;
        stored.vulnerability_id = Some(table.len() as i64 + 1);
        table.push(stored);
    }
    let page = search_records(&table, "", FilterSeverity::All, SortField::CVE, true, 0, 10);
    assert_eq!(page.items.len(), 3);
    assert_eq!(page.total_pages, 1);

    table[1].severity = "Unknown".to_string();
    table[1].description = Some(String::new());
    let source = stub("Stub description", Some("MEDIUM"), "2020-02-02T00:00:00");
    let mut updated = 0;
    for row in table.iter_mut() {
        if !needs_enrichment(row) {
            continue;
        }
        let u = plan_enrichment(row, &source);
        if build_update_statement(&row.cve_id, &u).is_some() {
            *row = apply_enrichment(row, &u);
            updated += 1;
        }
    }
    assert_eq!(updated, 1);
    assert_eq!(table[1].description, Some("Stub description".to_string()));
    assert_eq!(table[1].severity, "Medium");
    assert_eq!(table[1].cve_id, "CVE-2020-0002");
    assert_eq!(table[0].description, Some("First flaw".to_string()));
    assert_eq!(table[2].severity, "Low");
}
