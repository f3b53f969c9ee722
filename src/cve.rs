use vstd::prelude::*;

use crate::text::{eq_fold, eq_ignore_case, fold, fold_char, is_blank, trim, trimmed};

verus! {

/// True when `c` is an ASCII decimal digit.
pub open spec fn is_digit(c: char) -> bool {
    '0' <= c && c <= '9'
}

/// True when every character of `s` is an ASCII decimal digit.
pub open spec fn all_digits(s: Seq<char>) -> bool {
    forall|i: int| 0 <= i < s.len() ==> #[trigger] is_digit(s[i])
}

/// The business-key format `CVE-YYYY-NNNN...`: the prefix in any letter case, a year of
/// exactly four digits and a sequence number of at least four digits.
pub open spec fn valid_cve_id(s: Seq<char>) -> bool {
    &&& s.len() >= 13
    &&& eq_fold(s.subrange(0, 3), seq!['C', 'V', 'E'])
    &&& s[3] == '-'
    &&& all_digits(s.subrange(4, 8))
    &&& s[8] == '-'
    &&& all_digits(s.subrange(9, s.len() as int))
}

fn digits_between(s: &str, from: usize, to: usize) -> (r: bool)
    requires
        from <= to <= s@.len(),
    ensures
        r == all_digits(s@.subrange(from as int, to as int)),
{
    let mut i: usize = from;
    while i < to
        invariant
            from <= i <= to <= s@.len(),
            forall|k: int| from <= k < i ==> #[trigger] is_digit(s@[k]),
        decreases to - i,
    {
        let c = s.get_char(i);
        if !('0' <= c && c <= '9') {
            assert(!is_digit(s@.subrange(from as int, to as int)[i - from]));
            return false;
        }
        i = i + 1;
    }
    assert forall|k: int| 0 <= k < to - from implies #[trigger] is_digit(
        s@.subrange(from as int, to as int)[k],
    ) by {
        assert(is_digit(s@[from + k]));
    }
    true
}

/// Checks the business-key format `CVE-YYYY-NNNN...`.
pub fn is_valid_cve_id(cve_id: &str) -> (r: bool)
    ensures
        r == valid_cve_id(cve_id@),
{
    let s = cve_id;
    let n = s.unicode_len();
    if n < 13 {
        return false;
    }
    let prefix = fold_char(s.get_char(0)) == fold_char('C') && fold_char(s.get_char(1)) == fold_char(
        'V',
    ) && fold_char(s.get_char(2)) == fold_char('E');
    let ghost want = seq!['C', 'V', 'E'];
    assert(prefix == eq_fold(s@.subrange(0, 3), want)) by {
        let p = s@.subrange(0, 3);
        assert(p[0] == s@[0] && p[1] == s@[1] && p[2] == s@[2]);
        if prefix {
            assert forall|i: int| 0 <= i < 3 implies fold(#[trigger] p[i]) == fold(want[i]) by {
                if i == 0 {} else if i == 1 {} else {}
            }
        } else {
            if eq_fold(p, want) {
                assert(fold(p[0]) == fold(want[0]));
                assert(fold(p[1]) == fold(want[1]));
                assert(fold(p[2]) == fold(want[2]));
            }
        }
    }
    prefix && s.get_char(3) == '-' && digits_between(s, 4, 8) && s.get_char(8) == '-'
        && digits_between(s, 9, n)
}

/// The four canonical severity levels of a vulnerability.
#[derive(PartialEq, Eq, Structural, Clone, Copy, Debug)]
pub enum Severity {
    High,
    Medium,
    Low,
    Unknown,
}

/// The canonical text of each severity level.
pub open spec fn severity_label(s: Severity) -> Seq<char> {
    match s {
        Severity::High => seq!['H', 'i', 'g', 'h'],
        Severity::Medium => seq!['M', 'e', 'd', 'i', 'u', 'm'],
        Severity::Low => seq!['L', 'o', 'w'],
        Severity::Unknown => seq!['U', 'n', 'k', 'n', 'o', 'w', 'n'],
    }
}

/// How a raw status or rating maps onto the canonical levels, ignoring letter case:
/// `high` and `entry` are High, `medium` and `candidate` Medium, `low` Low, and
/// anything else Unknown.
pub open spec fn classify_severity(raw: Seq<char>) -> Severity {
    if eq_fold(raw, seq!['h', 'i', 'g', 'h']) || eq_fold(raw, seq!['e', 'n', 't', 'r', 'y']) {
        Severity::High
    } else if eq_fold(raw, seq!['m', 'e', 'd', 'i', 'u', 'm']) || eq_fold(
        raw,
        seq!['c', 'a', 'n', 'd', 'i', 'd', 'a', 't', 'e'],
    ) {
        Severity::Medium
    } else if eq_fold(raw, seq!['l', 'o', 'w']) {
        Severity::Low
    } else {
        Severity::Unknown
    }
}

impl Severity {
    /// Classifies a raw status or rating.
    pub fn classify(raw: &str) -> (r: Severity)
        ensures
            r == classify_severity(raw@),
    {
        proof {
            reveal_strlit("high");
            reveal_strlit("entry");
            reveal_strlit("medium");
            reveal_strlit("candidate");
            reveal_strlit("low");
        }
        assert("high"@ =~= seq!['h', 'i', 'g', 'h']);
        assert("entry"@ =~= seq!['e', 'n', 't', 'r', 'y']);
        assert("medium"@ =~= seq!['m', 'e', 'd', 'i', 'u', 'm']);
        assert("candidate"@ =~= seq!['c', 'a', 'n', 'd', 'i', 'd', 'a', 't', 'e']);
        assert("low"@ =~= seq!['l', 'o', 'w']);
        if eq_ignore_case(raw, "high") || eq_ignore_case(raw, "entry") {
            Severity::High
        } else if eq_ignore_case(raw, "medium") || eq_ignore_case(raw, "candidate") {
            Severity::Medium
        } else if eq_ignore_case(raw, "low") {
            Severity::Low
        } else {
            Severity::Unknown
        }
    }

    /// The canonical text of the level.
    pub fn as_str(&self) -> (r: &'static str)
        ensures
            r@ == severity_label(*self),
    {
        proof {
            reveal_strlit("High");
            reveal_strlit("Medium");
            reveal_strlit("Low");
            reveal_strlit("Unknown");
        }
        match self {
            Severity::High => {
                assert("High"@ =~= severity_label(*self));
                "High"
            },
            Severity::Medium => {
                assert("Medium"@ =~= severity_label(*self));
                "Medium"
            },
            Severity::Low => {
                assert("Low"@ =~= severity_label(*self));
                "Low"
            },
            Severity::Unknown => {
                assert("Unknown"@ =~= severity_label(*self));
                "Unknown"
            },
        }
    }
}

/// Normalises a raw status string into the canonical severity text.
pub fn parse_severity(raw_severity: &str) -> (r: String)
    ensures
        r@ == severity_label(classify_severity(raw_severity@)),
{
    let level = Severity::classify(raw_severity);
    level.as_str().to_owned()
}

/// Turns blank text into `None` and anything else into its trimmed form.
pub fn non_empty_string(s: String) -> (r: Option<String>)
    ensures
        is_blank(s@) ==> r is None,
        !is_blank(s@) ==> (r matches Some(t) && t@ == trimmed(s@)),
{
    let t = trim(s.as_str());
    if t.unicode_len() == 0 {
        None
    } else {
        Some(t.to_owned())
    }
}

/// A key built as `prefix-year-sequence` from a prefix without dashes and two runs of
/// digits is valid exactly when the prefix reads `CVE` in any letter case, the year has four
/// digits and the sequence at least four: malformed prefixes, years of another length and
/// shorter sequences are all rejected.
pub proof fn lemma_cve_id_parts(prefix: Seq<char>, year: Seq<char>, sequence: Seq<char>)
    requires
        forall|i: int| 0 <= i < prefix.len() ==> #[trigger] prefix[i] != '-',
        all_digits(year),
        all_digits(sequence),
    ensures
        valid_cve_id(prefix + seq!['-'] + year + seq!['-'] + sequence) <==> (eq_fold(
            prefix,
            seq!['C', 'V', 'E'],
        ) && year.len() == 4 && sequence.len() >= 4),
{
    let s = prefix + seq!['-'] + year + seq!['-'] + sequence;
    let p = prefix.len() as int;
    let y = year.len() as int;
    assert forall|i: int| 0 <= i < p implies s[i] == prefix[i] by {}
    assert(s[p] == '-');
    assert forall|i: int| 0 <= i < y implies s[p + 1 + i] == year[i] by {}
    assert(s[p + 1 + y] == '-');
    assert forall|i: int| 0 <= i < sequence.len() implies s[p + 2 + y + i] == sequence[i] by {}
    if valid_cve_id(s) {
        if p < 3 {
            assert(s.subrange(0, 3)[p] == '-');
            assert(fold(s.subrange(0, 3)[p]) == fold(seq!['C', 'V', 'E'][p]));
        } else if p > 3 {
            assert(s[3] == prefix[3]);
        }
        assert(p == 3);
        assert(prefix =~= s.subrange(0, 3));
        if y < 4 {
            assert(s.subrange(4, 8)[y] == s[4 + y]);
            assert(is_digit(s.subrange(4, 8)[y]));
        } else if y > 4 {
            assert(s[8] == year[4]);
            assert(is_digit(year[4]));
        }
        assert(y == 4);
        assert(sequence =~= s.subrange(9, s.len() as int));
    }
    if eq_fold(prefix, seq!['C', 'V', 'E']) && y == 4 && sequence.len() >= 4 {
        assert(prefix =~= s.subrange(0, 3));
        assert(year =~= s.subrange(4, 8));
        assert(sequence =~= s.subrange(9, s.len() as int));
    }
}

} // verus!
