use vstd::prelude::*;
use vstd::string::StringExecFns;

use crate::dates::Date;
use crate::enrich::{writes_nothing, EnrichmentUpdate};
use crate::model::{opt_view, FilterSeverity, SortField, Vulnerability};
use crate::query::filter_name;

verus! {

/// A value bound to a statement parameter.
#[derive(Clone, Debug)]
pub enum SqlValue {
    Null,
    Integer(i64),
    Text(String),
    Date(Date),
}

/// A bound value as a mathematical value.
pub enum ValueView {
    Null,
    Integer(int),
    Text(Seq<char>),
    Date((int, int, int)),
}

impl View for SqlValue {
    type V = ValueView;

    open spec fn view(&self) -> ValueView {
        match self {
            SqlValue::Null => ValueView::Null,
            SqlValue::Integer(i) => ValueView::Integer(*i as int),
            SqlValue::Text(s) => ValueView::Text(s@),
            SqlValue::Date(d) => ValueView::Date(d.triple()),
        }
    }
}

/// A statement and the values of its parameters, in order.
#[derive(Clone, Debug)]
pub struct SqlStatement {
    pub sql: String,
    pub params: Vec<SqlValue>,
}

/// The views of bound values.
pub open spec fn value_views(v: Seq<SqlValue>) -> Seq<ValueView> {
    v.map_values(|x: SqlValue| x@)
}

/// An optional text as a bound value.
pub open spec fn text_or_null(o: Option<Seq<char>>) -> ValueView {
    match o {
        Some(s) => ValueView::Text(s),
        None => ValueView::Null,
    }
}

fn text_value(o: &Option<String>) -> (r: SqlValue)
    ensures
        r@ == text_or_null(opt_view(*o)),
{
    match o {
        Some(s) => SqlValue::Text(s.clone()),
        None => SqlValue::Null,
    }
}

/// The statement that writes a vulnerability, replacing any row with the same business key;
/// its six parameters are the columns in the order `upsert_params` binds them.
pub open spec fn upsert_text() -> Seq<char> {
    "INSERT OR REPLACE INTO vulnerabilities (cve_id, description, severity, impact, mitigation, published_date)
     VALUES (?1, ?2, ?3, ?4, ?5, ?6)"@
}

pub fn upsert_statement() -> (r: &'static str)
    ensures
        r@ == upsert_text(),
{
    "INSERT OR REPLACE INTO vulnerabilities (cve_id, description, severity, impact, mitigation, published_date)
     VALUES (?1, ?2, ?3, ?4, ?5, ?6)"
}

/// The values that `upsert_statement` binds for a vulnerability.
pub fn upsert_params(vuln: &Vulnerability) -> (r: Vec<SqlValue>)
    ensures
        value_views(r@) == seq![
            ValueView::Text(vuln@.cve_id),
            text_or_null(vuln@.description),
            ValueView::Text(vuln@.severity),
            text_or_null(vuln@.impact),
            text_or_null(vuln@.mitigation),
            match vuln.published_date {
                Some(d) => ValueView::Date(d.triple()),
                None => ValueView::Null,
            },
        ],
{
    let mut r: Vec<SqlValue> = Vec::new();
    r.push(SqlValue::Text(vuln.cve_id.clone()));
    r.push(text_value(&vuln.description));
    r.push(SqlValue::Text(vuln.severity.clone()));
    r.push(text_value(&vuln.impact));
    r.push(text_value(&vuln.mitigation));
    r.push(
        match vuln.published_date {
            Some(d) => SqlValue::Date(d),
            None => SqlValue::Null,
        },
    );
    assert(value_views(r@) =~= seq![
        ValueView::Text(vuln@.cve_id),
        text_or_null(vuln@.description),
        ValueView::Text(vuln@.severity),
        text_or_null(vuln@.impact),
        text_or_null(vuln@.mitigation),
        match vuln.published_date {
            Some(d) => ValueView::Date(d.triple()),
            None => ValueView::Null,
        },
    ]);
    r
}

/// Pieces joined with a separator between them.
pub open spec fn join_with(parts: Seq<Seq<char>>, sep: Seq<char>) -> Seq<char>
    decreases parts.len(),
{
    if parts.len() == 0 {
        Seq::<char>::empty()
    } else if parts.len() == 1 {
        parts[0]
    } else {
        join_with(parts.drop_last(), sep) + sep + parts.last()
    }
}

/// The assignments an enrichment update makes, in column order.
pub open spec fn update_assignments(u: crate::enrich::UpdateView) -> Seq<Seq<char>> {
    (if u.description is Some {
        seq!["description = ?"@]
    } else {
        Seq::<Seq<char>>::empty()
    }) + (if u.severity is Some {
        seq!["severity = ?"@]
    } else {
        Seq::<Seq<char>>::empty()
    }) + (if u.published_date is Some {
        seq!["published_date = ?"@]
    } else {
        Seq::<Seq<char>>::empty()
    })
}

/// The values an enrichment update binds, in column order, then the business key.
pub open spec fn update_values(u: crate::enrich::UpdateView, key: Seq<char>) -> Seq<ValueView> {
    (match u.description {
        Some(d) => seq![ValueView::Text(d)],
        None => Seq::<ValueView>::empty(),
    }) + (match u.severity {
        Some(s) => seq![ValueView::Text(s)],
        None => Seq::<ValueView>::empty(),
    }) + (match u.published_date {
        Some(d) => seq![ValueView::Date(d)],
        None => Seq::<ValueView>::empty(),
    }) + seq![ValueView::Text(key)]
}

/// The single statement that writes an enrichment update, touching only the columns it
/// changes, keyed by business key; `None` when it changes nothing.
pub fn build_update_statement(cve_id: &str, update: &EnrichmentUpdate) -> (r: Option<SqlStatement>)
    ensures
        r is None <==> writes_nothing(update@),
        r matches Some(st) ==> st.sql@ == "UPDATE vulnerabilities SET "@ + join_with(
            update_assignments(update@),
            ", "@,
        ) + " WHERE cve_id = ?"@ && value_views(st.params@) == update_values(update@, cve_id@),
{
    if update.is_empty() {
        return None;
    }
    let mut parts: Vec<&'static str> = Vec::new();
    let mut params: Vec<SqlValue> = Vec::new();
    match &update.description {
        Some(d) => {
            parts.push("description = ?");
            params.push(SqlValue::Text(d.clone()));
        },
        None => {},
    }
    match &update.severity {
        Some(s) => {
            parts.push("severity = ?");
            params.push(SqlValue::Text(s.clone()));
        },
        None => {},
    }
    match update.published_date {
        Some(d) => {
            parts.push("published_date = ?");
            params.push(SqlValue::Date(d));
        },
        None => {},
    }
    params.push(SqlValue::Text(cve_id.to_owned()));
    let ghost pv = parts@.map_values(|p: &str| p@);
    assert(pv =~= update_assignments(update@));
    assert(value_views(params@) =~= update_values(update@, cve_id@));
    let mut sql = String::from_str("UPDATE vulnerabilities SET ");
    let n = parts.len();
    let mut i: usize = 0;
    assert(pv.subrange(0, 0) =~= Seq::<Seq<char>>::empty());
    assert(sql@ =~= "UPDATE vulnerabilities SET "@ + join_with(pv.subrange(0, 0), ", "@));
    while i < n
        invariant
            n == parts@.len(),
            pv == parts@.map_values(|p: &str| p@),
            i <= n,
            sql@ == "UPDATE vulnerabilities SET "@ + join_with(pv.subrange(0, i as int), ", "@),
        decreases n - i,
    {
        let ghost prev = sql@;
        let ghost part = pv.subrange(0, i + 1);
        assert(part.drop_last() =~= pv.subrange(0, i as int));
        assert(part.last() == parts@[i as int]@);
        if i > 0 {
            sql.append(", ");
            sql.append(parts[i]);
            assert(sql@ =~= "UPDATE vulnerabilities SET "@ + join_with(part, ", "@));
        } else {
            sql.append(parts[i]);
            assert(sql@ =~= "UPDATE vulnerabilities SET "@ + join_with(part, ", "@));
        }
        i = i + 1;
    }
    assert(pv.subrange(0, n as int) =~= pv);
    sql.append(" WHERE cve_id = ?");
    Some(SqlStatement { sql, params })
}

/// `q` with the LIKE wildcards `%` and `_`, and the escape character `\`, escaped.
pub open spec fn like_escaped(q: Seq<char>) -> Seq<char>
    decreases q.len(),
{
    if q.len() == 0 {
        Seq::<char>::empty()
    } else {
        let c = q.last();
        like_escaped(q.drop_last()) + if c == '%' || c == '_' || c == '\\' {
            seq!['\\', c]
        } else {
            seq![c]
        }
    }
}

/// The LIKE pattern that matches any text containing `q`.
pub open spec fn like_pattern(q: Seq<char>) -> Seq<char> {
    seq!['%'] + like_escaped(q) + seq!['%']
}

/// The pattern that a LIKE comparison uses to find `query` anywhere in a column.
pub fn like_pattern_of(query: &str) -> (r: String)
    ensures
        r@ == like_pattern(query@),
{
    proof {
        reveal_strlit("%");
        reveal_strlit("\\");
    }
    assert("%"@ =~= seq!['%']);
    assert("\\"@ =~= seq!['\\']);
    let mut out = String::from_str("%");
    let n = query.unicode_len();
    let mut i: usize = 0;
    assert(query@.subrange(0, 0) =~= Seq::<char>::empty());
    assert(out@ =~= seq!['%'] + like_escaped(query@.subrange(0, 0)));
    while i < n
        invariant
            n == query@.len(),
            i <= n,
            "%"@ == seq!['%'],
            "\\"@ == seq!['\\'],
            out@ == seq!['%'] + like_escaped(query@.subrange(0, i as int)),
        decreases n - i,
    {
        let ghost prev = out@;
        let ghost part = query@.subrange(0, i + 1);
        assert(part.drop_last() =~= query@.subrange(0, i as int));
        let c = query.get_char(i);
        assert(part.last() == c);
        let one = query.substring_char(i, i + 1);
        assert(one@ =~= seq![c]);
        if c == '%' || c == '_' || c == '\\' {
            out.append("\\");
            out.append(one);
            assert(out@ =~= seq!['%'] + like_escaped(part));
        } else {
            out.append(one);
            assert(out@ =~= seq!['%'] + like_escaped(part));
        }
        i = i + 1;
    }
    assert(query@.subrange(0, n as int) =~= query@);
    out.append("%");
    out
}

/// The condition on the search text.
pub open spec fn text_condition() -> Seq<char> {
    "(cve_id LIKE ? ESCAPE '\\' OR description LIKE ? ESCAPE '\\')"@
}

/// The condition on the severity.
pub open spec fn severity_condition() -> Seq<char> {
    "LOWER(severity) = ?"@
}

/// The WHERE clause of a search: a text condition when there is text, a severity condition
/// when one severity is asked for, both joined by AND, and nothing when neither applies.
pub open spec fn where_sql(query: Seq<char>, severity: FilterSeverity) -> Seq<char> {
    if query.len() > 0 && severity != FilterSeverity::All {
        " WHERE "@ + text_condition() + " AND "@ + severity_condition()
    } else if query.len() > 0 {
        " WHERE "@ + text_condition()
    } else if severity != FilterSeverity::All {
        " WHERE "@ + severity_condition()
    } else {
        Seq::<char>::empty()
    }
}

/// The values the WHERE clause binds: the pattern twice, then the severity name.
pub open spec fn where_values(query: Seq<char>, severity: FilterSeverity) -> Seq<ValueView> {
    (if query.len() > 0 {
        seq![ValueView::Text(like_pattern(query)), ValueView::Text(like_pattern(query))]
    } else {
        Seq::<ValueView>::empty()
    }) + match filter_name(severity) {
        Some(n) => seq![ValueView::Text(n)],
        None => Seq::<ValueView>::empty(),
    }
}

/// The ORDER BY terms of a search. Severity order keeps High, Medium, Low, then the rest,
/// in both directions, and the direction orders the rows inside a tier; dates without a
/// value come after every known date in both directions; ties go by insertion order.
pub open spec fn order_sql(sort: SortField, ascending: bool) -> Seq<char> {
    match sort {
        SortField::CVE => if ascending {
            "cve_id ASC, vulnerability_id ASC"@
        } else {
            "cve_id DESC, vulnerability_id ASC"@
        },
        SortField::Severity => if ascending {
            "CASE UPPER(severity) WHEN 'HIGH' THEN 1 WHEN 'MEDIUM' THEN 2 WHEN 'LOW' THEN 3 ELSE 4 END ASC, vulnerability_id ASC"@
        } else {
            "CASE UPPER(severity) WHEN 'HIGH' THEN 1 WHEN 'MEDIUM' THEN 2 WHEN 'LOW' THEN 3 ELSE 4 END ASC, vulnerability_id DESC"@
        },
        SortField::Date => if ascending {
            "published_date IS NULL ASC, published_date ASC, vulnerability_id ASC"@
        } else {
            "published_date IS NULL ASC, published_date DESC, vulnerability_id ASC"@
        },
        _ => if ascending {
            "vulnerability_id ASC"@
        } else {
            "vulnerability_id DESC"@
        },
    }
}

fn order_clause(sort: SortField, ascending: bool) -> (r: &'static str)
    ensures
        r@ == order_sql(sort, ascending),
{
    match sort {
        SortField::CVE => if ascending {
            "cve_id ASC, vulnerability_id ASC"
        } else {
            "cve_id DESC, vulnerability_id ASC"
        },
        SortField::Severity => if ascending {
            "CASE UPPER(severity) WHEN 'HIGH' THEN 1 WHEN 'MEDIUM' THEN 2 WHEN 'LOW' THEN 3 ELSE 4 END ASC, vulnerability_id ASC"
        } else {
            "CASE UPPER(severity) WHEN 'HIGH' THEN 1 WHEN 'MEDIUM' THEN 2 WHEN 'LOW' THEN 3 ELSE 4 END ASC, vulnerability_id DESC"
        },
        SortField::Date => if ascending {
            "published_date IS NULL ASC, published_date ASC, vulnerability_id ASC"
        } else {
            "published_date IS NULL ASC, published_date DESC, vulnerability_id ASC"
        },
        _ => if ascending {
            "vulnerability_id ASC"
        } else {
            "vulnerability_id DESC"
        },
    }
}

/// The columns a search reads.
pub open spec fn select_head() -> Seq<char> {
    "SELECT vulnerability_id, cve_id, description, severity, impact, mitigation, published_date FROM vulnerabilities"@
}

/// A search as two statements: the count of matching rows, and one page of them.
#[derive(Clone, Debug)]
pub struct SearchStatements {
    pub count: SqlStatement,
    pub select: SqlStatement,
}

/// Why a search could not be put into statements.
#[derive(PartialEq, Eq, Structural, Clone, Copy, Debug)]
pub enum QueryError {
    /// A page must hold at least one row.
    EmptyPage,
    /// The page size or the offset of the page does not fit a 64-bit parameter.
    PageOutOfRange,
}

fn where_clause(query: &str, severity: FilterSeverity) -> (r: (String, Vec<SqlValue>))
    ensures
        r.0@ == where_sql(query@, severity),
        value_views(r.1@) == where_values(query@, severity),
{
    let mut sql = String::new();
    let mut params: Vec<SqlValue> = Vec::new();
    let has_text = query.unicode_len() > 0;
    if has_text {
        sql.append(" WHERE ");
        sql.append("(cve_id LIKE ? ESCAPE '\\' OR description LIKE ? ESCAPE '\\')");
        let pattern = like_pattern_of(query);
        params.push(SqlValue::Text(pattern.clone()));
        params.push(SqlValue::Text(pattern));
    }
    let name: Option<&'static str> = match severity {
        FilterSeverity::All => None,
        FilterSeverity::High => Some("high"),
        FilterSeverity::Medium => Some("medium"),
        FilterSeverity::Low => Some("low"),
    };
    proof {
        reveal_strlit("high");
        reveal_strlit("medium");
        reveal_strlit("low");
    }
    match name {
        Some(n) => {
            if has_text {
                sql.append(" AND ");
            } else {
                sql.append(" WHERE ");
            }
            sql.append("LOWER(severity) = ?");
            params.push(SqlValue::Text(n.to_owned()));
            assert(filter_name(severity) == Some(n@));
        },
        None => {},
    }
    assert(sql@ =~= where_sql(query@, severity));
    assert(value_views(params@) =~= where_values(query@, severity));
    (sql, params)
}

/// Puts a search into its two statements: a count with the search's conditions, and a
/// page of rows with the same conditions, ordered, limited to `page_size` rows from
/// offset `page * page_size`.
pub fn build_search(
    search_query: &str,
    page: usize,
    page_size: usize,
    sort_field: SortField,
    sort_ascending: bool,
    filter_severity: FilterSeverity,
) -> (r: Result<SearchStatements, QueryError>)
    ensures
        page_size == 0 <==> r == Err::<SearchStatements, QueryError>(QueryError::EmptyPage),
        page_size > 0 && (page_size > i64::MAX || page * page_size > i64::MAX) <==> r == Err::<
            SearchStatements,
            QueryError,
        >(QueryError::PageOutOfRange),
        r matches Ok(st) ==> {
            &&& st.count.sql@ == "SELECT COUNT(*) FROM vulnerabilities"@ + where_sql(
                search_query@,
                filter_severity,
            )
            &&& value_views(st.count.params@) == where_values(search_query@, filter_severity)
            &&& st.select.sql@ == select_head() + where_sql(search_query@, filter_severity)
                + " ORDER BY "@ + order_sql(sort_field, sort_ascending) + " LIMIT ? OFFSET ?"@
            &&& value_views(st.select.params@) == where_values(search_query@, filter_severity)
                + seq![
                ValueView::Integer(page_size as int),
                ValueView::Integer(page * page_size),
            ]
        },
{
    if page_size == 0 {
        return Err(QueryError::EmptyPage);
    }
    let limit: u64 = 0x7fff_ffff_ffff_ffff;
    if page_size as u64 > limit || page as u64 > limit / page_size as u64 {
        proof {
            if page_size <= i64::MAX {
                assert(page * page_size > i64::MAX) by (nonlinear_arith)
                    requires
                        page > (i64::MAX as int) / (page_size as int),
                        page_size > 0,
                {
                }
            }
        }
        return Err(QueryError::PageOutOfRange);
    }
    assert(page * page_size <= i64::MAX) by (nonlinear_arith)
        requires
            page <= (i64::MAX as int) / (page_size as int),
            page_size > 0,
    {
    }
    let offset = ((page as u64) * (page_size as u64)) as i64;
    let (where_text, where_params) = where_clause(search_query, filter_severity);
    let mut count_sql = String::from_str("SELECT COUNT(*) FROM vulnerabilities");
    count_sql.append(where_text.as_str());
    let mut select_sql = String::from_str(
        "SELECT vulnerability_id, cve_id, description, severity, impact, mitigation, published_date FROM vulnerabilities",
    );
    select_sql.append(where_text.as_str());
    select_sql.append(" ORDER BY ");
    select_sql.append(order_clause(sort_field, sort_ascending));
    select_sql.append(" LIMIT ? OFFSET ?");
    let (_, mut select_params) = where_clause(search_query, filter_severity);
    select_params.push(SqlValue::Integer(page_size as i64));
    select_params.push(SqlValue::Integer(offset));
    assert(value_views(select_params@) =~= where_values(search_query@, filter_severity) + seq![
        ValueView::Integer(page_size as int),
        ValueView::Integer(page * page_size),
    ]);
    Ok(
        SearchStatements {
            count: SqlStatement { sql: count_sql, params: where_params },
            select: SqlStatement { sql: select_sql, params: select_params },
        },
    )
}

} // verus!
