use vstd::prelude::*;

use crate::cve::{classify_severity, is_valid_cve_id, non_empty_string, parse_severity, severity_label, valid_cve_id};
use crate::dates::{field_date, parse_date, Date};
use crate::model::{opt_date, opt_view, VulnRecord, Vulnerability};
use crate::text::{eq_fold, eq_ignore_case, is_blank, strip_char, trim, trim_end_char, trim_start_char, trimmed};

verus! {

/// The number of records committed together in one transaction.
pub const BATCH_SIZE: usize = 1000;

/// The width of the feed: its seven columns.
pub const FEED_COLUMNS: usize = 7;

/// The pieces of `s` between occurrences of `c`, for the first `n` characters of `s`.
pub open spec fn split_prefix(s: Seq<char>, c: char, n: int) -> Seq<Seq<char>>
    decreases n,
{
    if n <= 0 {
        seq![Seq::<char>::empty()]
    } else {
        let p = split_prefix(s, c, n - 1);
        if s[n - 1] == c {
            p.push(Seq::<char>::empty())
        } else {
            p.update(p.len() - 1, p.last().push(s[n - 1]))
        }
    }
}

/// The pieces of `s` between occurrences of `c`.
pub open spec fn split_on(s: Seq<char>, c: char) -> Seq<Seq<char>> {
    split_prefix(s, c, s.len() as int)
}

/// The views of a sequence of strings.
pub open spec fn views(v: Seq<String>) -> Seq<Seq<char>> {
    v.map_values(|x: String| x@)
}

/// Splits `s` at every `c`.
pub fn split_char(s: &str, c: char) -> (r: Vec<String>)
    ensures
        views(r@) == split_on(s@, c),
{
    let n = s.unicode_len();
    let mut done: Vec<String> = Vec::new();
    let mut start: usize = 0;
    let mut i: usize = 0;
    assert(views(done@) =~= Seq::<Seq<char>>::empty());
    assert(s@.subrange(0, 0) =~= Seq::<char>::empty());
    assert(split_prefix(s@, c, 0) =~= views(done@).push(s@.subrange(0, 0)));
    while i < n
        invariant
            n == s@.len(),
            start <= i <= n,
            split_prefix(s@, c, i as int) == views(done@).push(s@.subrange(start as int, i as int)),
        decreases n - i,
    {
        let ch = s.get_char(i);
        let ghost p = split_prefix(s@, c, i as int);
        if ch == c {
            let piece = s.substring_char(start, i).to_owned();
            let ghost before = done@;
            done.push(piece);
            assert(views(done@) =~= views(before).push(piece@));
            assert(views(done@) =~= p);
            start = i + 1;
            assert(s@.subrange(start as int, i + 1) =~= Seq::<char>::empty());
            assert(split_prefix(s@, c, i + 1) == p.push(Seq::<char>::empty()));
            assert(split_prefix(s@, c, i + 1) =~= views(done@).push(s@.subrange(start as int, i + 1)));
        } else {
            assert(s@.subrange(start as int, i as int).push(s@[i as int]) =~= s@.subrange(
                start as int,
                i + 1,
            ));
            assert(split_prefix(s@, c, i + 1) == p.update(p.len() - 1, p.last().push(s@[i as int])));
            assert(split_prefix(s@, c, i + 1) =~= views(done@).push(
                s@.subrange(start as int, i + 1),
            ));
        }
        i = i + 1;
    }
    let last = s.substring_char(start, n).to_owned();
    done.push(last);
    assert(views(done@) =~= split_prefix(s@, c, n as int));
    done
}

/// The column names of the feed, in order.
pub open spec fn header_names() -> Seq<Seq<char>> {
    seq![
        "Name"@,
        "Status"@,
        "Description"@,
        "References"@,
        "Phase"@,
        "Votes"@,
        "Comments"@,
    ]
}

fn header_name(i: usize) -> (r: &'static str)
    requires
        i < 7,
    ensures
        r@ == header_names()[i as int],
{
    if i == 0 {
        "Name"
    } else if i == 1 {
        "Status"
    } else if i == 2 {
        "Description"
    } else if i == 3 {
        "References"
    } else if i == 4 {
        "Phase"
    } else if i == 5 {
        "Votes"
    } else {
        "Comments"
    }
}

/// A cell of a candidate header line: quotes and then white space taken off both ends.
pub open spec fn header_cell(f: Seq<char>) -> Seq<char> {
    trimmed(trim_end_char(trim_start_char(f, '"'), '"'))
}

/// A line is the header when its first seven comma-separated cells name the feed's
/// columns in order, in any letter case.
pub open spec fn is_header_line(line: Seq<char>) -> bool {
    let cells = split_on(trimmed(line), ',');
    cells.len() >= 7 && forall|i: int| 0 <= i < 7 ==> eq_fold(#[trigger] header_cell(cells[i]), header_names()[i])
}

/// Whether a line of the feed is its header row.
pub fn header_matches(line: &str) -> (r: bool)
    ensures
        r == is_header_line(line@),
{
    let cells = split_char(trim(line), ',');
    let ghost cv = split_on(trimmed(line@), ',');
    if cells.len() < 7 {
        return false;
    }
    let mut i: usize = 0;
    while i < 7
        invariant
            views(cells@) == cv,
            cv == split_on(trimmed(line@), ','),
            cells.len() >= 7,
            i <= 7,
            forall|k: int| 0 <= k < i ==> eq_fold(#[trigger] header_cell(cv[k]), header_names()[k]),
        decreases 7 - i,
    {
        assert(cells@[i as int]@ == cv[i as int]);
        let cell = trim(strip_char(cells[i].as_str(), '"'));
        if !eq_ignore_case(cell, header_name(i)) {
            assert(!eq_fold(header_cell(cv[i as int]), header_names()[i as int]));
            assert(!is_header_line(line@)) by {
                let cs = split_on(trimmed(line@), ',');
                assert(cs == cv);
                assert(!eq_fold(header_cell(cs[i as int]), header_names()[i as int]));
            }
            return false;
        }
        i = i + 1;
    }
    true
}

/// The index of the first header line of `lines`, or their number where none is.
pub open spec fn first_header(lines: Seq<Seq<char>>) -> int
    decreases lines.len(),
{
    if lines.len() == 0 {
        0
    } else if is_header_line(lines[0]) {
        0
    } else {
        1 + first_header(lines.drop_first())
    }
}

/// Finds the header row among the lines of a feed, past any leading commentary.
pub fn find_header_line(lines: &Vec<String>) -> (r: Option<usize>)
    ensures
        r is None <==> first_header(views(lines@)) == lines@.len(),
        r matches Some(k) ==> k == first_header(views(lines@)) && k < lines@.len(),
{
    let n = lines.len();
    let ghost ls = views(lines@);
    let mut i: usize = 0;
    assert(ls.subrange(0, n as int) =~= ls);
    while i < n
        invariant
            n == lines@.len(),
            ls == views(lines@),
            i <= n,
            first_header(ls) == i + first_header(ls.subrange(i as int, n as int)),
        decreases n - i,
    {
        assert(ls.subrange(i as int, n as int)[0] == lines@[i as int]@);
        if header_matches(lines[i].as_str()) {
            return Some(i);
        }
        assert(ls.subrange(i as int, n as int).drop_first() =~= ls.subrange(i + 1, n as int));
        i = i + 1;
    }
    None
}

/// Lines joined with line feeds between them.
pub open spec fn join_lines(ls: Seq<Seq<char>>) -> Seq<char>
    decreases ls.len(),
{
    if ls.len() == 0 {
        Seq::<char>::empty()
    } else if ls.len() == 1 {
        ls[0]
    } else {
        join_lines(ls.drop_last()) + seq!['\n'] + ls.last()
    }
}

/// The feed from its line `k` on.
pub fn lines_from(lines: &Vec<String>, k: usize) -> (r: String)
    requires
        k <= lines@.len(),
    ensures
        r@ == join_lines(views(lines@).subrange(k as int, lines@.len() as int)),
{
    let n = lines.len();
    let ghost ls = views(lines@);
    let mut out = String::new();
    let mut i: usize = k;
    proof {
        reveal_strlit("\n");
    }
    assert(ls.subrange(k as int, k as int) =~= Seq::<Seq<char>>::empty());
    while i < n
        invariant
            n == lines@.len(),
            ls == views(lines@),
            k <= i <= n,
            out@ == join_lines(ls.subrange(k as int, i as int)),
        decreases n - i,
    {
        let ghost part = ls.subrange(k as int, i + 1);
        assert(part.drop_last() =~= ls.subrange(k as int, i as int));
        let ghost prev = out@;
        assert(part.last() == lines@[i as int]@);
        if i > k {
            out.append("\n");
            proof {
                reveal_strlit("\n");
            }
            assert("\n"@.len() == 1);
            assert("\n"@[0] == '\n');
            assert("\n"@ =~= seq!['\n']);
            out.append(lines[i].as_str());
            assert(out@ =~= prev + seq!['\n'] + lines@[i as int]@);
        } else {
            out.append(lines[i].as_str());
            assert(out@ =~= lines@[i as int]@);
        }
        assert(out@ =~= join_lines(part));
        i = i + 1;
    }
    out
}

/// The view of a parsed record: its fields, or `None` where it could not be read.
pub open spec fn record_view(o: Option<Vec<String>>) -> Option<Seq<Seq<char>>> {
    match o {
        Some(v) => Some(views(v@)),
        None => None,
    }
}

/// What the csv crate reads from a text, record by record: the fields of each (trimmed of
/// white space), or `None` for a record it could not read.
pub uninterp spec fn csv_records(text: Seq<char>) -> Seq<Option<Seq<Seq<char>>>>;

/// Relies on csv::ReaderBuilder to split a comma-separated text into records and fields,
/// with quoting, with no header row, with records of any width, and with white space
/// trimmed from each field.
#[verifier::external_body]
fn read_csv_records(text: &str) -> (r: Vec<Option<Vec<String>>>)
    ensures
        r@.len() == csv_records(text@).len(),
        forall|i: int| 0 <= i < r@.len() ==> #[trigger] record_view(r@[i]) == csv_records(text@)[i],
{
    let mut rdr = csv::ReaderBuilder::new().has_headers(false).flexible(true).trim(
        csv::Trim::All,
    ).from_reader(text.as_bytes());
    let mut out = Vec::new();
    for rec in rdr.records() {
        out.push(
            match rec {
                Ok(r) => Some(r.iter().map(str::to_string).collect()),
                Err(_) => None,
            },
        );
    }
    out
}

/// A data row of the feed, field by field, as read under the header.
#[derive(Clone, Debug)]
pub struct VulnerabilityCsvRecord {
    pub cve_id: String,
    pub severity: String,
    pub description: String,
    pub references: Option<String>,
    pub published_date: Option<String>,
    pub impact: Option<String>,
    pub mitigation: Option<String>,
}

/// What a data row holds, as mathematical values.
pub struct CsvRow {
    pub cve_id: Seq<char>,
    pub severity: Seq<char>,
    pub description: Seq<char>,
    pub references: Option<Seq<char>>,
    pub published_date: Option<Seq<char>>,
    pub impact: Option<Seq<char>>,
    pub mitigation: Option<Seq<char>>,
}

impl View for VulnerabilityCsvRecord {
    type V = CsvRow;

    open spec fn view(&self) -> CsvRow {
        CsvRow {
            cve_id: self.cve_id@,
            severity: self.severity@,
            description: self.description@,
            references: opt_view(self.references),
            published_date: opt_view(self.published_date),
            impact: opt_view(self.impact),
            mitigation: opt_view(self.mitigation),
        }
    }
}

/// Why one row of the feed was skipped; `record` counts the data rows from 1.
#[derive(PartialEq, Eq, Structural, Clone, Copy, Debug)]
pub enum RowError {
    Malformed { record: usize },
    InvalidCveId { record: usize },
    InvalidDate { record: usize },
}

/// Why a whole feed was refused.
#[derive(PartialEq, Eq, Structural, Clone, Copy, Debug)]
pub enum FeedError {
    /// No line of the feed is its header row.
    HeaderNotFound,
    /// The header row, read as a record, does not name the seven columns in order.
    HeaderMismatch,
}

/// Blank text as absent, other text trimmed.
pub open spec fn text_or_none(s: Seq<char>) -> Option<Seq<char>> {
    if is_blank(s) {
        None
    } else {
        Some(trimmed(s))
    }
}

/// An optional field with blank text taken as absent.
pub open spec fn opt_text_or_none(o: Option<Seq<char>>) -> Option<Seq<char>> {
    match o {
        Some(s) => text_or_none(s),
        None => None,
    }
}

/// The date a row's date field gives, if it has one.
pub open spec fn row_date(o: Option<Seq<char>>) -> Option<(int, int, int)> {
    match o {
        Some(t) => field_date(t),
        None => None,
    }
}

/// True when a row's date field is present but cannot be read as a date.
pub open spec fn bad_date(o: Option<Seq<char>>) -> bool {
    o matches Some(t) && field_date(t) is None
}

/// The vulnerability that a row with a valid key and a readable date becomes.
pub open spec fn row_vulnerability(r: CsvRow) -> VulnRecord {
    VulnRecord {
        id: None,
        cve_id: r.cve_id,
        description: text_or_none(r.description),
        severity: severity_label(classify_severity(r.severity)),
        impact: opt_text_or_none(r.impact),
        mitigation: opt_text_or_none(r.mitigation),
        published_date: row_date(r.published_date),
    }
}

/// A record that carries no description, impact or mitigation is feed metadata.
pub open spec fn is_metadata(v: VulnRecord) -> bool {
    v.description is None && v.impact is None && v.mitigation is None
}

fn text_field(o: Option<String>) -> (r: Option<String>)
    ensures
        opt_view(r) == opt_text_or_none(opt_view(o)),
{
    match o {
        Some(s) => non_empty_string(s),
        None => None,
    }
}

/// Validates and normalises one data row into a vulnerability.
pub fn process_csv_record(
    record_result: Result<VulnerabilityCsvRecord, RowError>,
    line_number: usize,
) -> (r: Result<Vulnerability, RowError>)
    ensures
        record_result matches Err(e) ==> r == Err::<Vulnerability, RowError>(e),
        record_result matches Ok(rec) ==> {
            &&& !valid_cve_id(rec@.cve_id) ==> r == Err::<Vulnerability, RowError>(
                RowError::InvalidCveId { record: line_number },
            )
            &&& valid_cve_id(rec@.cve_id) && bad_date(rec@.published_date) ==> r == Err::<
                Vulnerability,
                RowError,
            >(RowError::InvalidDate { record: line_number })
            &&& valid_cve_id(rec@.cve_id) && !bad_date(rec@.published_date) ==> (r matches Ok(v)
                && v@ == row_vulnerability(rec@) && (v.published_date matches Some(d) ==> d.wf()))
        },
{
    let record = match record_result {
        Ok(rec) => rec,
        Err(e) => {
            return Err(e);
        },
    };
    if !is_valid_cve_id(record.cve_id.as_str()) {
        return Err(RowError::InvalidCveId { record: line_number });
    }
    let published_date: Option<Date> = match &record.published_date {
        Some(t) => match parse_date(t.as_str()) {
            Ok(d) => Some(d),
            Err(_) => {
                return Err(RowError::InvalidDate { record: line_number });
            },
        },
        None => None,
    };
    let severity = parse_severity(record.severity.as_str());
    let description = non_empty_string(record.description);
    let impact = text_field(record.impact);
    let mitigation = text_field(record.mitigation);
    Ok(
        Vulnerability {
            vulnerability_id: None,
            cve_id: record.cve_id,
            description,
            severity,
            impact,
            mitigation,
            published_date,
        },
    )
}

/// Whether a record is feed metadata, with no description, impact or mitigation.
pub fn is_metadata_record(vuln: &Vulnerability) -> (r: bool)
    ensures
        r == is_metadata(vuln@),
{
    vuln.description.is_none() && vuln.impact.is_none() && vuln.mitigation.is_none()
}

/// An empty field as absent.
pub open spec fn empty_as_none(s: Seq<char>) -> Option<Seq<char>> {
    if s.len() == 0 {
        None
    } else {
        Some(s)
    }
}

/// The row that seven fields make, in the order of the header.
pub open spec fn fields_row(f: Seq<Seq<char>>) -> CsvRow {
    CsvRow {
        cve_id: f[0],
        severity: f[1],
        description: f[2],
        references: empty_as_none(f[3]),
        published_date: empty_as_none(f[4]),
        impact: empty_as_none(f[5]),
        mitigation: empty_as_none(f[6]),
    }
}

fn optional_field(s: &String) -> (r: Option<String>)
    ensures
        opt_view(r) == empty_as_none(s@),
{
    if s.unicode_len() == 0 {
        None
    } else {
        Some(s.clone())
    }
}

/// Reads the fields of a record as a data row; a record must have exactly seven fields.
pub fn record_from_fields(fields: &Vec<String>) -> (r: Option<VulnerabilityCsvRecord>)
    ensures
        r is Some <==> fields@.len() == FEED_COLUMNS,
        r matches Some(rec) ==> rec@ == fields_row(views(fields@)),
{
    if fields.len() != FEED_COLUMNS {
        return None;
    }
    let rec = VulnerabilityCsvRecord {
        cve_id: fields[0].clone(),
        severity: fields[1].clone(),
        description: fields[2].clone(),
        references: optional_field(&fields[3]),
        published_date: optional_field(&fields[4]),
        impact: optional_field(&fields[5]),
        mitigation: optional_field(&fields[6]),
    };
    assert(rec@ == fields_row(views(fields@)));
    Some(rec)
}

/// What one record of the feed's body becomes: a vulnerability, or `None` where the record
/// is unreadable, has the wrong width, an invalid key or an unreadable date.
pub open spec fn row_outcome(row: Option<Seq<Seq<char>>>) -> Option<VulnRecord> {
    match row {
        Some(f) => if f.len() == 7 && valid_cve_id(fields_row(f).cve_id) && !bad_date(
            fields_row(f).published_date,
        ) {
            Some(row_vulnerability(fields_row(f)))
        } else {
            None
        },
        None => None,
    }
}

/// The vulnerabilities that a run of data records yields, in order: rows that fail are
/// skipped and metadata rows dropped.
pub open spec fn imported(rows: Seq<Option<Seq<Seq<char>>>>) -> Seq<VulnRecord>
    decreases rows.len(),
{
    if rows.len() == 0 {
        Seq::<VulnRecord>::empty()
    } else {
        let prev = imported(rows.drop_last());
        match row_outcome(rows.last()) {
            Some(v) => if is_metadata(v) {
                prev
            } else {
                prev.push(v)
            },
            None => prev,
        }
    }
}

/// The number of data records that fail.
pub open spec fn rejected(rows: Seq<Option<Seq<Seq<char>>>>) -> nat
    decreases rows.len(),
{
    if rows.len() == 0 {
        0
    } else {
        rejected(rows.drop_last()) + if row_outcome(rows.last()) is None {
            1nat
        } else {
            0nat
        }
    }
}

/// The header record names the seven columns, in order, in any letter case.
pub open spec fn header_ok(rec: Option<Seq<Seq<char>>>) -> bool {
    rec matches Some(f) && f.len() == 7 && forall|i: int|
        0 <= i < 7 ==> eq_fold(#[trigger] f[i], header_names()[i])
}

/// The lines of a feed.
pub open spec fn feed_lines(text: Seq<char>) -> Seq<Seq<char>> {
    split_on(text, '\n')
}

/// The feed from its header line on.
pub open spec fn feed_body(text: Seq<char>) -> Seq<char> {
    let ls = feed_lines(text);
    join_lines(ls.subrange(first_header(ls), ls.len() as int))
}

/// The records of the feed from its header on; the first is the header.
pub open spec fn feed_records(text: Seq<char>) -> Seq<Option<Seq<Seq<char>>>> {
    csv_records(feed_body(text))
}

/// The vulnerabilities a feed with a valid header yields, in order.
pub open spec fn feed_rows(text: Seq<char>) -> Seq<VulnRecord> {
    imported(feed_records(text).drop_first())
}

/// The views of the records of a batch.
pub open spec fn vuln_views(v: Seq<Vulnerability>) -> Seq<VulnRecord> {
    v.map_values(|x: Vulnerability| x@)
}

/// The records of a run of batches, one batch after another.
pub open spec fn batch_views(bs: Seq<Vec<Vulnerability>>) -> Seq<VulnRecord>
    decreases bs.len(),
{
    if bs.len() == 0 {
        Seq::<VulnRecord>::empty()
    } else {
        batch_views(bs.drop_last()) + vuln_views(bs.last()@)
    }
}

/// The records of a feed, in batches for transactional commit, and the rows skipped.
pub struct ImportPlan {
    pub batches: Vec<Vec<Vulnerability>>,
    pub skipped: Vec<RowError>,
}

fn header_record_ok(rec: &Option<Vec<String>>) -> (r: bool)
    ensures
        r == header_ok(record_view(*rec)),
{
    match rec {
        Some(f) => {
            if f.len() != FEED_COLUMNS {
                return false;
            }
            let ghost fv = views(f@);
            assert(record_view(*rec) == Some(fv));
            let mut i: usize = 0;
            while i < 7
                invariant
                    fv == views(f@),
                    record_view(*rec) == Some(fv),
                    f@.len() == 7,
                    i <= 7,
                    forall|k: int| 0 <= k < i ==> eq_fold(#[trigger] fv[k], header_names()[k]),
                decreases 7 - i,
            {
                if !eq_ignore_case(f[i].as_str(), header_name(i)) {
                    assert(!header_ok(record_view(*rec))) by {
                        assert(record_view(*rec) == Some(fv));
                        assert(!eq_fold(fv[i as int], header_names()[i as int]));
                    }
                    return false;
                }
                i = i + 1;
            }
            true
        },
        None => false,
    }
}

/// Reads a feed: finds its header among leading commentary, checks the header, turns each
/// data row into a vulnerability, skips rows that fail, drops metadata rows, and groups
/// what is left into batches of `BATCH_SIZE`.
pub fn plan_import(text: &str) -> (r: Result<ImportPlan, FeedError>)
    ensures
        first_header(feed_lines(text@)) == feed_lines(text@).len() <==> r == Err::<
            ImportPlan,
            FeedError,
        >(FeedError::HeaderNotFound),
        first_header(feed_lines(text@)) < feed_lines(text@).len() && !(feed_records(text@).len()
            > 0 && header_ok(feed_records(text@)[0])) ==> r == Err::<ImportPlan, FeedError>(
            FeedError::HeaderMismatch,
        ),
        first_header(feed_lines(text@)) < feed_lines(text@).len() && feed_records(text@).len() > 0
            && header_ok(feed_records(text@)[0]) ==> (r matches Ok(p) && batch_views(p.batches@)
            == feed_rows(text@) && p.skipped@.len() == rejected(feed_records(text@).drop_first())
            && forall|i: int|
            0 <= i < p.batches@.len() ==> 0 < (#[trigger] p.batches@[i])@.len() <= BATCH_SIZE
                && (i + 1 < p.batches@.len() ==> p.batches@[i]@.len() == BATCH_SIZE)),
{
    let lines = split_char(text, '\n');
    let k = match find_header_line(&lines) {
        Some(k) => k,
        None => {
            return Err(FeedError::HeaderNotFound);
        },
    };
    let body = lines_from(&lines, k);
    let records = read_csv_records(body.as_str());
    let ghost recs = csv_records(body@);
    if records.len() == 0 {
        return Err(FeedError::HeaderMismatch);
    }
    if !header_record_ok(&records[0]) {
        return Err(FeedError::HeaderMismatch);
    }
    let n = records.len();
    let mut batches: Vec<Vec<Vulnerability>> = Vec::new();
    let mut current: Vec<Vulnerability> = Vec::new();
    let mut skipped: Vec<RowError> = Vec::new();
    let mut i: usize = 1;
    assert(recs.subrange(1, 1) =~= Seq::<Option<Seq<Seq<char>>>>::empty());
    assert(vuln_views(current@) =~= Seq::<VulnRecord>::empty());
    while i < n
        invariant
            n == records@.len(),
            recs == csv_records(body@),
            n == recs.len(),
            forall|j: int| 0 <= j < n ==> #[trigger] record_view(records@[j]) == recs[j],
            1 <= i <= n,
            batch_views(batches@) + vuln_views(current@) == imported(recs.subrange(1, i as int)),
            skipped@.len() == rejected(recs.subrange(1, i as int)),
            current@.len() < BATCH_SIZE,
            forall|j: int| 0 <= j < batches@.len() ==> (#[trigger] batches@[j])@.len() == BATCH_SIZE,
        decreases n - i,
    {
        let ghost seen = recs.subrange(1, i + 1);
        assert(seen.drop_last() =~= recs.subrange(1, i as int));
        assert(seen.last() == recs[i as int]);
        let ghost before = batch_views(batches@) + vuln_views(current@);
        let ghost expected = row_outcome(recs[i as int]);
        assert(record_view(records@[i as int]) == recs[i as int]);
        let outcome: Option<Vulnerability> = match &records[i] {
            Some(fields) => {
                assert(recs[i as int] == Some(views(fields@)));
                match record_from_fields(fields) {
                    Some(rec) => {
                        assert(rec@ == fields_row(views(fields@)));
                        match process_csv_record(Ok(rec), i) {
                            Ok(v) => {
                                assert(expected == Some(v@));
                                Some(v)
                            },
                            Err(e) => {
                                assert(expected is None);
                                skipped.push(e);
                                None
                            },
                        }
                    },
                    None => {
                        assert(expected is None);
                        skipped.push(RowError::Malformed { record: i });
                        None
                    },
                }
            },
            None => {
                assert(expected is None);
                skipped.push(RowError::Malformed { record: i });
                None
            },
        };
        assert(outcome matches Some(v) ==> expected == Some(v@));
        assert(outcome is None ==> expected is None);
        if let Some(v) = outcome {
            if !is_metadata_record(&v) {
                let ghost cur = current@;
                current.push(v);
                assert(vuln_views(current@) =~= vuln_views(cur).push(v@));
                assert(batch_views(batches@) + vuln_views(current@) =~= before.push(v@));
                if current.len() == BATCH_SIZE {
                    let full = current;
                    current = Vec::new();
                    let ghost bs = batches@;
                    batches.push(full);
                    assert(batches@.drop_last() =~= bs);
                    assert(vuln_views(current@) =~= Seq::<VulnRecord>::empty());
                    assert(batch_views(batches@) + vuln_views(current@) =~= before.push(v@));
                }
            }
        }
        i = i + 1;
    }
    if current.len() > 0 {
        let ghost bs = batches@;
        let ghost cv = vuln_views(current@);
        batches.push(current);
        assert(batches@.drop_last() =~= bs);
        assert(batch_views(batches@) =~= batch_views(bs) + cv);
    } else {
        assert(vuln_views(current@) =~= Seq::<VulnRecord>::empty());
        assert(batch_views(batches@) + vuln_views(current@) =~= batch_views(batches@));
    }
    assert(recs.subrange(1, n as int) =~= recs.drop_first());
    Ok(ImportPlan { batches, skipped })
}

/// The data records of a feed made of one well-formed row, one row with an invalid
/// business key and one row whose description, votes and comments are blank import
/// exactly one vulnerability: the well-formed row's.
pub proof fn lemma_import_one_of_three(good: Seq<Seq<char>>, bad: Seq<Seq<char>>, blank: Seq<Seq<char>>)
    requires
        good.len() == 7,
        valid_cve_id(good[0]),
        !bad_date(fields_row(good).published_date),
        !is_blank(good[2]),
        bad.len() == 7,
        !valid_cve_id(bad[0]),
        blank.len() == 7,
        is_blank(blank[2]),
        is_blank(blank[5]),
        is_blank(blank[6]),
    ensures
        imported(seq![Some(good), Some(bad), Some(blank)]) == seq![row_vulnerability(fields_row(good))],
{
    let rows = seq![Some(good), Some(bad), Some(blank)];
    let two = seq![Some(good), Some(bad)];
    let one = seq![Some(good)];
    assert(rows.drop_last() =~= two);
    assert(two.drop_last() =~= one);
    assert(one.drop_last() =~= Seq::<Option<Seq<Seq<char>>>>::empty());
    let v = row_vulnerability(fields_row(good));
    assert(!is_metadata(v));
    assert(fields_row(good).cve_id == good[0]);
    assert(row_outcome(Some(good)) == Some(v));
    assert(one.last() == Some(good));
    assert(two.last() == Some(bad));
    assert(rows.last() == Some(blank));
    assert(row_outcome(Some(bad)) is None);
    assert(imported(one.drop_last()) =~= Seq::<VulnRecord>::empty());
    assert(imported(one) =~= seq![v]);
    assert(imported(two) =~= seq![v]);
    if let Some(w) = row_outcome(Some(blank)) {
        assert(is_metadata(w));
    }
    assert(imported(rows) =~= seq![v]);
}

/// A record of the feed's body that has the feed's width, and either an invalid key or a
/// valid key with a readable date and a description.
pub open spec fn plain_row(row: Option<Seq<Seq<char>>>) -> bool {
    row matches Some(f) && f.len() == 7 && (!valid_cve_id(f[0]) || (!bad_date(
        fields_row(f).published_date,
    ) && !is_blank(f[2])))
}

/// The vulnerabilities of the rows with a valid key, in order.
pub open spec fn valid_key_rows(rows: Seq<Option<Seq<Seq<char>>>>) -> Seq<VulnRecord>
    decreases rows.len(),
{
    if rows.len() == 0 {
        Seq::<VulnRecord>::empty()
    } else if valid_cve_id(rows.last()->Some_0[0]) {
        valid_key_rows(rows.drop_last()).push(row_vulnerability(fields_row(rows.last()->Some_0)))
    } else {
        valid_key_rows(rows.drop_last())
    }
}

/// From records that each have a valid key, a date and a description, or else an invalid
/// key, an import keeps exactly the valid-key rows, in order, and skips the others.
pub proof fn lemma_import_keeps_valid_keys(rows: Seq<Option<Seq<Seq<char>>>>)
    requires
        forall|i: int| 0 <= i < rows.len() ==> plain_row(#[trigger] rows[i]),
    ensures
        imported(rows) == valid_key_rows(rows),
    decreases rows.len(),
{
    if rows.len() > 0 {
        let init = rows.drop_last();
        assert forall|i: int| 0 <= i < init.len() implies plain_row(#[trigger] init[i]) by {
            assert(init[i] == rows[i]);
        }
        lemma_import_keeps_valid_keys(init);
        assert(plain_row(rows[rows.len() - 1]));
    }
}

} // verus!
