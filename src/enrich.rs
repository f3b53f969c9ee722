use vstd::prelude::*;

use crate::cve::{classify_severity, severity_label, Severity};
use crate::dates::{chrono_parsed_date, parse_naive_date, Date};
use crate::model::{opt_date, opt_view, VulnRecord, Vulnerability};
use crate::text::{eq_fold, eq_ignore_case, is_blank, str_equal, trim};

verus! {

/// A description of a vulnerability in one language, as the lookup service gives it.
#[derive(Clone, Debug)]
pub struct NvdDescription {
    pub lang: String,
    pub value: String,
}

/// One severity rating of a vulnerability, from one scoring source.
#[derive(Clone, Debug)]
pub struct NvdCvssMetric {
    pub source: String,
    pub severity: Option<String>,
}

/// What the lookup service knows of one vulnerability.
#[derive(Clone, Debug)]
pub struct NvdCve {
    pub id: String,
    pub descriptions: Vec<NvdDescription>,
    pub metrics: Option<Vec<NvdCvssMetric>>,
    pub published: String,
}

/// A fetched record as mathematical values.
pub struct NvdView {
    pub descriptions: Seq<(Seq<char>, Seq<char>)>,
    pub ratings: Option<Seq<Option<Seq<char>>>>,
    pub published: Seq<char>,
}

impl View for NvdCve {
    type V = NvdView;

    open spec fn view(&self) -> NvdView {
        NvdView {
            descriptions: self.descriptions@.map_values(|d: NvdDescription| (d.lang@, d.value@)),
            ratings: match self.metrics {
                Some(m) => Some(m@.map_values(|x: NvdCvssMetric| opt_view(x.severity))),
                None => None,
            },
            published: self.published@,
        }
    }
}

/// The first description in English, if any.
pub open spec fn english(ds: Seq<(Seq<char>, Seq<char>)>) -> Option<Seq<char>>
    decreases ds.len(),
{
    if ds.len() == 0 {
        None
    } else if ds[0].0 == seq!['e', 'n'] {
        Some(ds[0].1)
    } else {
        english(ds.drop_first())
    }
}

/// The first severity rating that is present, if any.
pub open spec fn first_rating(rs: Seq<Option<Seq<char>>>) -> Option<Seq<char>>
    decreases rs.len(),
{
    if rs.len() == 0 {
        None
    } else if rs[0] is Some {
        rs[0]
    } else {
        first_rating(rs.drop_first())
    }
}

/// The date of a publication timestamp: its first ten characters read as `YYYY-MM-DD`.
pub open spec fn published_day(p: Seq<char>) -> Option<(int, int, int)> {
    if p.len() >= 10 {
        chrono_parsed_date(p.subrange(0, 10), "%Y-%m-%d"@)
    } else {
        None
    }
}

/// A text field counts as unknown when absent or blank.
pub open spec fn text_unknown(o: Option<Seq<char>>) -> bool {
    o matches Some(s) ==> is_blank(s)
}

/// A severity counts as unknown when it reads `Unknown` in any letter case.
pub open spec fn severity_unknown(s: Seq<char>) -> bool {
    eq_fold(s, seq!['u', 'n', 'k', 'n', 'o', 'w', 'n'])
}

/// A record is picked for enrichment when any of its fields is unknown.
pub open spec fn needs_enrichment_spec(v: VulnRecord) -> bool {
    text_unknown(v.description) || severity_unknown(v.severity) || v.published_date is None
        || text_unknown(v.impact) || text_unknown(v.mitigation)
}

/// The fields an enrichment writes; `None` leaves a field as it is.
pub struct UpdateView {
    pub description: Option<Seq<char>>,
    pub severity: Option<Seq<char>>,
    pub published_date: Option<(int, int, int)>,
}

/// The new description: the English one, where the record has none and it is not blank.
pub open spec fn new_description(v: VulnRecord, f: NvdView) -> Option<Seq<char>> {
    if text_unknown(v.description) {
        match english(f.descriptions) {
            Some(d) => if is_blank(d) {
                None
            } else {
                Some(d)
            },
            None => None,
        }
    } else {
        None
    }
}

/// The canonical level that the first present rating names, unless it names none of
/// High, Medium and Low.
pub open spec fn rating_level(ratings: Option<Seq<Option<Seq<char>>>>) -> Option<Seq<char>> {
    match ratings {
        Some(rs) => match first_rating(rs) {
            Some(x) => if classify_severity(x) != Severity::Unknown {
                Some(severity_label(classify_severity(x)))
            } else {
                None
            },
            None => None,
        },
        None => None,
    }
}

/// The new severity, where the record's is unknown.
pub open spec fn new_severity(v: VulnRecord, f: NvdView) -> Option<Seq<char>> {
    if severity_unknown(v.severity) {
        rating_level(f.ratings)
    } else {
        None
    }
}

/// The new publication date, where the record has none.
pub open spec fn new_date(v: VulnRecord, f: NvdView) -> Option<(int, int, int)> {
    if v.published_date is None {
        published_day(f.published)
    } else {
        None
    }
}

/// The fields that enriching record `v` from `f` writes.
pub open spec fn update_for(v: VulnRecord, f: NvdView) -> UpdateView {
    UpdateView {
        description: new_description(v, f),
        severity: new_severity(v, f),
        published_date: new_date(v, f),
    }
}

/// The record after an update is written.
pub open spec fn applied(v: VulnRecord, u: UpdateView) -> VulnRecord {
    VulnRecord {
        description: if u.description is Some {
            u.description
        } else {
            v.description
        },
        severity: match u.severity {
            Some(s) => s,
            None => v.severity,
        },
        published_date: if u.published_date is Some {
            u.published_date
        } else {
            v.published_date
        },
        ..v
    }
}

/// An update that writes nothing.
pub open spec fn writes_nothing(u: UpdateView) -> bool {
    u.description is None && u.severity is None && u.published_date is None
}

/// The fields that one enrichment of a record writes.
#[derive(Clone, Debug)]
pub struct EnrichmentUpdate {
    pub description: Option<String>,
    pub severity: Option<String>,
    pub published_date: Option<Date>,
}

impl View for EnrichmentUpdate {
    type V = UpdateView;

    open spec fn view(&self) -> UpdateView {
        UpdateView {
            description: opt_view(self.description),
            severity: opt_view(self.severity),
            published_date: opt_date(self.published_date),
        }
    }
}

impl EnrichmentUpdate {
    /// Whether the update writes no field.
    pub fn is_empty(&self) -> (r: bool)
        ensures
            r == writes_nothing(self@),
    {
        self.description.is_none() && self.severity.is_none() && self.published_date.is_none()
    }
}

fn text_is_unknown(o: &Option<String>) -> (r: bool)
    ensures
        r == text_unknown(opt_view(*o)),
{
    match o {
        Some(s) => trim(s.as_str()).unicode_len() == 0,
        None => true,
    }
}

fn severity_is_unknown(s: &str) -> (r: bool)
    ensures
        r == severity_unknown(s@),
{
    proof {
        reveal_strlit("unknown");
    }
    assert("unknown"@ =~= seq!['u', 'n', 'k', 'n', 'o', 'w', 'n']);
    eq_ignore_case(s, "unknown")
}

/// Whether a record has an unknown field and so qualifies for enrichment.
pub fn needs_enrichment(vuln: &Vulnerability) -> (r: bool)
    ensures
        r == needs_enrichment_spec(vuln@),
{
    text_is_unknown(&vuln.description) || severity_is_unknown(vuln.severity.as_str())
        || vuln.published_date.is_none() || text_is_unknown(&vuln.impact) || text_is_unknown(
        &vuln.mitigation,
    )
}

/// The first description in English.
pub fn get_english_description(descriptions: &Vec<NvdDescription>) -> (r: Option<String>)
    ensures
        opt_view(r) == english(descriptions@.map_values(|d: NvdDescription| (d.lang@, d.value@))),
{
    let ghost ds = descriptions@.map_values(|d: NvdDescription| (d.lang@, d.value@));
    let n = descriptions.len();
    let mut i: usize = 0;
    proof {
        reveal_strlit("en");
    }
    assert("en"@ =~= seq!['e', 'n']);
    assert(ds.subrange(0, n as int) =~= ds);
    while i < n
        invariant
            n == descriptions@.len(),
            ds == descriptions@.map_values(|d: NvdDescription| (d.lang@, d.value@)),
            "en"@ == seq!['e', 'n'],
            i <= n,
            english(ds) == english(ds.subrange(i as int, n as int)),
        decreases n - i,
    {
        assert(ds.subrange(i as int, n as int)[0] == (descriptions@[i as int].lang@, descriptions@[i as int].value@));
        if str_equal(descriptions[i].lang.as_str(), "en") {
            return Some(descriptions[i].value.clone());
        }
        assert(ds.subrange(i as int, n as int).drop_first() =~= ds.subrange(i + 1, n as int));
        i = i + 1;
    }
    None
}

/// The first severity rating that is present.
pub fn first_severity(metrics: &Vec<NvdCvssMetric>) -> (r: Option<String>)
    ensures
        opt_view(r) == first_rating(metrics@.map_values(|x: NvdCvssMetric| opt_view(x.severity))),
{
    let ghost rs = metrics@.map_values(|x: NvdCvssMetric| opt_view(x.severity));
    let n = metrics.len();
    let mut i: usize = 0;
    assert(rs.subrange(0, n as int) =~= rs);
    while i < n
        invariant
            n == metrics@.len(),
            rs == metrics@.map_values(|x: NvdCvssMetric| opt_view(x.severity)),
            i <= n,
            first_rating(rs) == first_rating(rs.subrange(i as int, n as int)),
        decreases n - i,
    {
        assert(rs.subrange(i as int, n as int)[0] == opt_view(metrics@[i as int].severity));
        match &metrics[i].severity {
            Some(s) => {
                return Some(s.clone());
            },
            None => {},
        }
        assert(rs.subrange(i as int, n as int).drop_first() =~= rs.subrange(i + 1, n as int));
        i = i + 1;
    }
    None
}

/// The canonical severity of a fetched record's first rating, where it names a known level.
pub fn get_severity(metrics: &Option<Vec<NvdCvssMetric>>) -> (r: Option<String>)
    ensures
        opt_view(r) == rating_level(
            match *metrics {
                Some(m) => Some(m@.map_values(|x: NvdCvssMetric| opt_view(x.severity))),
                None => None,
            },
        ),
{
    match metrics {
        Some(m) => match first_severity(m) {
            Some(raw) => {
                let level = Severity::classify(raw.as_str());
                if level == Severity::Unknown {
                    None
                } else {
                    Some(level.as_str().to_owned())
                }
            },
            None => None,
        },
        None => None,
    }
}

/// The day of a publication timestamp, from its leading `YYYY-MM-DD`.
pub fn published_date_of(published: &str) -> (r: Option<Date>)
    ensures
        opt_date(r) == published_day(published@),
        r matches Some(d) ==> d.wf(),
{
    if published.unicode_len() < 10 {
        return None;
    }
    parse_naive_date(published.substring_char(0, 10), "%Y-%m-%d")
}

/// Works out which unknown fields of `vuln` the fetched record fills; known fields are
/// never written.
pub fn plan_enrichment(vuln: &Vulnerability, fetched: &NvdCve) -> (r: EnrichmentUpdate)
    ensures
        r@ == update_for(vuln@, fetched@),
        r.published_date matches Some(d) ==> d.wf(),
{
    let description = if text_is_unknown(&vuln.description) {
        match get_english_description(&fetched.descriptions) {
            Some(d) => if trim(d.as_str()).unicode_len() == 0 {
                None
            } else {
                Some(d)
            },
            None => None,
        }
    } else {
        None
    };
    let severity = if severity_is_unknown(vuln.severity.as_str()) {
        get_severity(&fetched.metrics)
    } else {
        None
    };
    let published_date = if vuln.published_date.is_none() {
        published_date_of(fetched.published.as_str())
    } else {
        None
    };
    EnrichmentUpdate { description, severity, published_date }
}

/// The record with an update written into it.
pub fn apply_enrichment(vuln: &Vulnerability, update: &EnrichmentUpdate) -> (r: Vulnerability)
    ensures
        r@ == applied(vuln@, update@),
{
    let description = match &update.description {
        Some(d) => Some(d.clone()),
        None => vuln.description.clone(),
    };
    let severity = match &update.severity {
        Some(s) => s.clone(),
        None => vuln.severity.clone(),
    };
    let published_date = match update.published_date {
        Some(d) => Some(d),
        None => vuln.published_date,
    };
    Vulnerability {
        vulnerability_id: vuln.vulnerability_id,
        cve_id: vuln.cve_id.clone(),
        description,
        severity,
        impact: vuln.impact.clone(),
        mitigation: vuln.mitigation.clone(),
        published_date,
    }
}

/// Enrichment never changes a field that was known before: a present, non-blank
/// description, a severity other than `Unknown`, a present date; nor the key, impact or
/// mitigation.
pub proof fn lemma_enrichment_keeps_known_fields(v: VulnRecord, f: NvdView)
    ensures
        !text_unknown(v.description) ==> applied(v, update_for(v, f)).description == v.description,
        !severity_unknown(v.severity) ==> applied(v, update_for(v, f)).severity == v.severity,
        v.published_date is Some ==> applied(v, update_for(v, f)).published_date == v.published_date,
        applied(v, update_for(v, f)).cve_id == v.cve_id,
        applied(v, update_for(v, f)).impact == v.impact,
        applied(v, update_for(v, f)).mitigation == v.mitigation,
        applied(v, update_for(v, f)).id == v.id,
{
}

/// Enriching twice from the same fetched data ends where enriching once does, and the
/// second run writes nothing.
pub proof fn lemma_enrichment_converges(v: VulnRecord, f: NvdView)
    ensures
        writes_nothing(update_for(applied(v, update_for(v, f)), f)),
        applied(applied(v, update_for(v, f)), update_for(applied(v, update_for(v, f)), f))
            == applied(v, update_for(v, f)),
{
    let once = applied(v, update_for(v, f));
    let u = update_for(v, f);
    if u.severity is Some {
        let s = u.severity->Some_0;
        assert(!severity_unknown(s)) by {
            let w = seq!['u', 'n', 'k', 'n', 'o', 'w', 'n'];
            if s.len() == w.len() {
                assert(s =~= seq!['U', 'n', 'k', 'n', 'o', 'w', 'n']);
                assert(false);
            }
        }
    }
    let u2 = update_for(once, f);
    assert(writes_nothing(u2));
    assert(applied(once, u2) =~= once);
}

/// The statement that picks up to `?` candidate records for enrichment, in the columns of a
/// search row: the description, impact or mitigation absent or empty once ASCII white
/// space is trimmed, the severity `Unknown` in any letter case, or the date absent. Text
/// made only of other Unicode white space is not picked here, so the statement picks a
/// subset of the records `needs_enrichment_spec` admits; each picked record is checked
/// again with `needs_enrichment` before anything is fetched.
pub open spec fn candidates_query_text() -> Seq<char> {
    "SELECT vulnerability_id, cve_id, description, severity, impact, mitigation, published_date
     FROM vulnerabilities
     WHERE description IS NULL OR TRIM(description, ' ' || char(9) || char(10) || char(11) || char(12) || char(13)) = ''
        OR UPPER(severity) = 'UNKNOWN'
        OR published_date IS NULL
        OR impact IS NULL OR TRIM(impact, ' ' || char(9) || char(10) || char(11) || char(12) || char(13)) = ''
        OR mitigation IS NULL OR TRIM(mitigation, ' ' || char(9) || char(10) || char(11) || char(12) || char(13)) = ''
     LIMIT ?"@
}

pub fn candidates_query() -> (r: &'static str)
    ensures
        r@ == candidates_query_text(),
{
    "SELECT vulnerability_id, cve_id, description, severity, impact, mitigation, published_date
     FROM vulnerabilities
     WHERE description IS NULL OR TRIM(description, ' ' || char(9) || char(10) || char(11) || char(12) || char(13)) = ''
        OR UPPER(severity) = 'UNKNOWN'
        OR published_date IS NULL
        OR impact IS NULL OR TRIM(impact, ' ' || char(9) || char(10) || char(11) || char(12) || char(13)) = ''
        OR mitigation IS NULL OR TRIM(mitigation, ' ' || char(9) || char(10) || char(11) || char(12) || char(13)) = ''
     LIMIT ?"
}

/// A record whose description is blank and whose severity is unknown receives the fetched
/// English description and the canonical level of the fetched rating, when both are
/// usable; its key, impact and mitigation stay as they were.
pub proof fn lemma_enrichment_fills_unknown(v: VulnRecord, f: NvdView)
    requires
        text_unknown(v.description),
        severity_unknown(v.severity),
        english(f.descriptions) matches Some(d) && !is_blank(d),
        rating_level(f.ratings) is Some,
    ensures
        applied(v, update_for(v, f)).description == english(f.descriptions),
        applied(v, update_for(v, f)).severity == rating_level(f.ratings)->Some_0,
        !writes_nothing(update_for(v, f)),
        applied(v, update_for(v, f)).cve_id == v.cve_id,
        applied(v, update_for(v, f)).impact == v.impact,
        applied(v, update_for(v, f)).mitigation == v.mitigation,
{
}

} // verus!
