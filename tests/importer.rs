use vulndb::cve::{is_valid_cve_id, non_empty_string, parse_severity, Severity};
use vulndb::dates::{parse_date, Date};
use vulndb::feed::{
    find_header_line, header_matches, is_metadata_record, plan_import, process_csv_record,
    split_char, FeedError, RowError, VulnerabilityCsvRecord, BATCH_SIZE,
};
use vulndb::model::Vulnerability;

fn ymd(y: i32, m: u32, d: u32) -> Date {
    Date::from_ymd_opt(y, m, d).unwrap()
}

#[test]
fn test_parse_severity() {
    assert_eq!(parse_severity("Entry"), "High");
    assert_eq!(parse_severity("Candidate"), "Medium");
    assert_eq!(parse_severity("Low"), "Low");
    assert_eq!(parse_severity("Other"), "Unknown");
}

#[test]
fn test_parse_date() {
    assert_eq!(parse_date("Modified (20051217)").unwrap(), ymd(2005, 12, 17));
    assert_eq!(parse_date("1999-06-21").unwrap(), ymd(1999, 6, 21));
    assert!(parse_date("InvalidDate").is_err());
    assert!(parse_date("").is_err());
}

#[test]
fn test_is_valid_cve_id() {
    assert!(is_valid_cve_id("CVE-1999-0001"));
    assert!(is_valid_cve_id("CVE-2023-12345"));
    assert!(!is_valid_cve_id("CVE-99-0001"));
    assert!(!is_valid_cve_id("CVE-2023-ABC"));
    assert!(!is_valid_cve_id("CWE-1999-0001"));
    // The sequence number has at least four digits, so five are accepted.
    assert!(is_valid_cve_id("CVE-1999-00001"));
}

#[test]
fn test_is_metadata_record() {
    let metadata_vuln = Vulnerability {
        vulnerability_id: None,
        cve_id: "CVE-2023-0001".to_string(),
        description: None,
        severity: "Unknown".to_string(),
        impact: None,
        mitigation: None,
        published_date: None,
    };
    assert!(is_metadata_record(&metadata_vuln));

    let real_vuln = Vulnerability {
        vulnerability_id: None,
        cve_id: "CVE-2023-0002".to_string(),
        description: Some("A real vulnerability".to_string()),
        severity: "High".to_string(),
        impact: Some("Severe impact".to_string()),
        mitigation: Some("Apply patch".to_string()),
        published_date: Some(ymd(2023, 1, 1)),
    };
    assert!(!is_metadata_record(&real_vuln));
}

#[test]
fn test_non_empty_string() {
    assert_eq!(non_empty_string("Hello".to_string()), Some("Hello".to_string()));
    assert_eq!(non_empty_string("  ".to_string()), None);
    assert_eq!(non_empty_string("".to_string()), None);
}

#[test]
fn test_process_csv_record() {
    let valid_record = VulnerabilityCsvRecord {
        cve_id: "CVE-2023-0001".to_string(),
        severity: "High".to_string(),
        description: "A test vulnerability".to_string(),
        references: Some("https://example.com".to_string()),
        published_date: Some("2023-01-01".to_string()),
        impact: Some("Severe impact".to_string()),
        mitigation: Some("Apply patch".to_string()),
    };

    let result = process_csv_record(Ok(valid_record), 1);
    assert!(result.is_ok());
    let vuln = result.unwrap();
    assert_eq!(vuln.cve_id, "CVE-2023-0001");
    assert_eq!(vuln.severity, "High");
    assert_eq!(vuln.description, Some("A test vulnerability".to_string()));
    assert_eq!(vuln.impact, Some("Severe impact".to_string()));
    assert_eq!(vuln.mitigation, Some("Apply patch".to_string()));
    assert_eq!(vuln.published_date, Some(ymd(2023, 1, 1)));

    let invalid_record = VulnerabilityCsvRecord {
        cve_id: "INVALID-ID".to_string(),
        severity: "High".to_string(),
        description: "An invalid record".to_string(),
        references: None,
        published_date: None,
        impact: None,
        mitigation: None,
    };

    let result = process_csv_record(Ok(invalid_record), 2);
    assert!(result.is_err());
}

#[test]
fn cve_id_rejects_malformed_prefixes_years_and_sequences() {
    assert!(is_valid_cve_id("cve-2020-1234"));
    assert!(!is_valid_cve_id("CVX-2020-1234"));
    assert!(!is_valid_cve_id("CVE2020-1234"));
    assert!(!is_valid_cve_id("CVE-20201-1234"));
    assert!(!is_valid_cve_id("CVE-2020-123"));
    assert!(!is_valid_cve_id("CVE-2020-1234-5"));
    assert!(!is_valid_cve_id(""));
}

#[test]
fn severity_classification_ignores_case() {
    assert_eq!(parse_severity("HIGH"), "High");
    assert_eq!(parse_severity("entry"), "High");
    assert_eq!(parse_severity("MEDIUM"), "Medium");
    assert_eq!(parse_severity("low"), "Low");
    assert_eq!(parse_severity(""), "Unknown");
    assert_eq!(Severity::classify("CANDIDATE"), Severity::Medium);
    assert_eq!(Severity::Unknown.as_str(), "Unknown");
}

#[test]
fn non_empty_string_trims_surrounding_space() {
    assert_eq!(non_empty_string("  padded \t".to_string()), Some("padded".to_string()));
}

#[test]
fn parse_date_rejects_impossible_dates() {
    assert!(parse_date("2023-02-30").is_err());
    assert!(parse_date("Modified (20230230)").is_err());
    assert_eq!(parse_date("Proposed (20000229)").unwrap(), ymd(2000, 2, 29));
    assert!(Date::from_ymd_opt(1900, 2, 29).is_none());
    assert!(Date::from_ymd_opt(2024, 2, 29).is_some());
}

#[test]
fn process_csv_record_skips_unreadable_dates_and_blank_text() {
    let record = VulnerabilityCsvRecord {
        cve_id: "CVE-2023-0003".to_string(),
        severity: "Candidate".to_string(),
        description: "  ".to_string(),
        references: None,
        published_date: Some("someday".to_string()),
        impact: None,
        mitigation: None,
    };
    assert_eq!(
        process_csv_record(Ok(record.clone()), 7).unwrap_err(),
        RowError::InvalidDate { record: 7 }
    );
    let mut undated = record;
    undated.published_date = None;
    undated.impact = Some("   ".to_string());
    let v = process_csv_record(Ok(undated), 8).unwrap();
    assert_eq!(v.description, None);
    assert_eq!(v.impact, None);
    assert_eq!(v.severity, "Medium");
}

#[test]
fn header_is_found_after_commentary() {
    assert!(header_matches("\"Name\",\"Status\",\"Description\",\"References\",\"Phase\",\"Votes\",\"Comments\""));
    assert!(header_matches(" name , STATUS,description,references,phase,votes,comments "));
    assert!(!header_matches("Name,Status,Description"));
    let lines = split_char("CVE list\n\nversion 1\nName,Status,Description,References,Phase,Votes,Comments\nCVE-1999-0001,Entry,x,,,,", '\n');
    assert_eq!(lines.len(), 5);
    assert_eq!(find_header_line(&lines), Some(3));
}

const HEADER: &str = "Name,Status,Description,References,Phase,Votes,Comments";

#[test]
fn import_keeps_one_of_valid_invalid_and_blank_rows() {
    let feed = format!(
        "Generated list\n{}\nCVE-2020-0001,Entry,A flaw,ref,Modified (20200105),,\nBAD-ID,Entry,Bad key,,,,\nCVE-2020-0002,Candidate,,,,,\n",
        HEADER
    );
    let plan = plan_import(&feed).unwrap();
    let rows: Vec<&Vulnerability> = plan.batches.iter().flatten().collect();
    assert_eq!(rows.len(), 1);
    assert_eq!(rows[0].cve_id, "CVE-2020-0001");
    assert_eq!(rows[0].severity, "High");
    assert_eq!(rows[0].published_date, Some(ymd(2020, 1, 5)));
    assert_eq!(plan.skipped, vec![RowError::InvalidCveId { record: 2 }]);
}

#[test]
fn import_of_the_same_feed_twice_gives_the_same_rows() {
    let feed = format!(
        "{}\nCVE-2021-0001,Entry,One,,,,\nCVE-2021-0002,Low,Two,,,,\nCVE-2021-0001,Entry,One again,,,,\n",
        HEADER
    );
    let first = plan_import(&feed).unwrap();
    let second = plan_import(&feed).unwrap();
    let keys = |p: &vulndb::feed::ImportPlan| -> Vec<String> {
        p.batches.iter().flatten().map(|v| v.cve_id.clone()).collect()
    };
    assert_eq!(keys(&first), keys(&second));
    let mut distinct = keys(&first);
    distinct.sort();
    distinct.dedup();
    assert_eq!(distinct.len(), 2);
}

#[test]
fn import_without_header_is_refused() {
    assert_eq!(plan_import("just text\nmore text\n").err(), Some(FeedError::HeaderNotFound));
    assert_eq!(plan_import("").err(), Some(FeedError::HeaderNotFound));
}

#[test]
fn import_with_extra_header_column_is_a_mismatch() {
    let feed = format!("{},Extra\nCVE-2021-0001,Entry,One,,,,,\n", HEADER);
    assert_eq!(plan_import(&feed).err(), Some(FeedError::HeaderMismatch));
}

#[test]
fn import_skips_rows_of_the_wrong_width() {
    let feed = format!("{}\nCVE-2021-0001,Entry\nCVE-2021-0002,Low,Two,,,,\n", HEADER);
    let plan = plan_import(&feed).unwrap();
    assert_eq!(plan.batches.len(), 1);
    assert_eq!(plan.batches[0].len(), 1);
    assert_eq!(plan.skipped, vec![RowError::Malformed { record: 1 }]);
}

#[test]
fn import_batches_hold_at_most_a_thousand_rows() {
    let mut feed = String::from(HEADER);
    feed.push('\n');
    for i in 0..2001 {
        feed.push_str(&format!("CVE-2022-{:05},Entry,\"Row, {}\",,,,\n", i, i));
    }
    let plan = plan_import(&feed).unwrap();
    let sizes: Vec<usize> = plan.batches.iter().map(|b| b.len()).collect();
    assert_eq!(sizes, vec![BATCH_SIZE, BATCH_SIZE, 1]);
    assert_eq!(plan.batches[0][0].description, Some("Row, 0".to_string()));
}
