use crate::config::Config;
use crate::record::{Record, RecordView};
use vstd::prelude::*;

verus! {

/// The one way a scan can fail: the file could not be opened for reading
/// (not found, permission denied, and the like). Raised before any line is
/// read; no partial record list accompanies it.
#[derive(PartialEq, Eq, Debug, Clone, Copy, Structural)]
pub enum MatchError {
    FileOpenFailure,
}

impl MatchError {
    /// The short descriptive message of the error.
    pub open spec fn spec_message(self) -> Seq<char> {
        "Could not open file"@
    }

    /// The message surfaced verbatim to the caller.
    pub fn message(&self) -> (m: &'static str)
        ensures
            m@ == self.spec_message(),
    {
        "Could not open file"
    }
}

/// `needle` occurs in `hay` as a contiguous substring (an empty needle
/// occurs in every sequence).
pub open spec fn is_substring(needle: Seq<char>, hay: Seq<char>) -> bool {
    exists|k: int|
        0 <= k && k + needle.len() <= hay.len() && #[trigger] hay.subrange(k, k + needle.len())
            == needle
}

/// The uppercase form that simple case-folding gives a character sequence;
/// it depends on the characters alone.
pub uninterp spec fn upper_of(s: Seq<char>) -> Seq<char>;

/// Relies on str::to_uppercase: the returned string is the uppercase form of
/// the input, a function of the input characters alone.
#[verifier::external_body]
fn to_upper(s: &str) -> (r: String)
    ensures
        r@ == upper_of(s@),
{
    s.to_uppercase()
}

/// Relies on str::contains with a &str pattern: true exactly when the
/// pattern occurs as a contiguous substring of the string.
#[verifier::external_body]
fn contains_substr(hay: &str, needle: &str) -> (r: bool)
    ensures
        r == is_substring(needle@, hay@),
{
    hay.contains(needle)
}

/// Whether a line matches the query: both are first case-folded when
/// `ignore_case` is set, and the (possibly folded) line must contain the
/// (possibly folded) query as a contiguous substring.
pub open spec fn line_matches(line: Seq<char>, query: Seq<char>, ignore_case: bool) -> bool {
    if ignore_case {
        is_substring(upper_of(query), upper_of(line))
    } else {
        is_substring(query, line)
    }
}

/// The matching test on one line of text.
pub fn line_is_match(line: &str, query: &str, ignore_case: bool) -> (r: bool)
    ensures
        r == line_matches(line@, query@, ignore_case),
{
    if ignore_case {
        let folded_line = to_upper(line);
        let folded_query = to_upper(query);
        contains_substr(folded_line.as_str(), folded_query.as_str())
    } else {
        contains_substr(line, query)
    }
}

/// The records that scanning a line sequence yields: one per matching line,
/// in scan order, carrying the 1-based line number and the original text. A
/// line read as `None` (one that failed to decode) is skipped, though its
/// index still advances.
pub open spec fn scan_matches(
    lines: Seq<Option<Seq<char>>>,
    query: Seq<char>,
    ignore_case: bool,
) -> Seq<RecordView>
    decreases lines.len(),
{
    if lines.len() == 0 {
        Seq::empty()
    } else {
        let pre = scan_matches(lines.drop_last(), query, ignore_case);
        match lines.last() {
            Some(l) => if line_matches(l, query, ignore_case) {
                pre.push(RecordView { line_number: lines.len() as int, data: l })
            } else {
                pre
            },
            None => pre,
        }
    }
}

/// Reads the provided lines and finds the matches: exactly the records of
/// [`scan_matches`] for the configuration's query, case-folded when the
/// ignore-case flag is set. Line text that could not be decoded is handed in
/// as `None` and silently skipped.
pub fn matcher(config: &Config, lines: &Vec<Option<String>>) -> (matches: Vec<Record>)
    ensures
        matches.deep_view() == scan_matches(lines.deep_view(), config.query@, config.options.i),
{
    let ghost dv: Seq<Option<Seq<char>>> = lines.deep_view();
    let mut matches: Vec<Record> = Vec::new();
    let mut i: usize = 0;

    proof {
        assert(dv.take(0) =~= Seq::<Option<Seq<char>>>::empty());
        assert(matches.deep_view() =~= Seq::<RecordView>::empty());
    }

    while i < lines.len()
        invariant
            i <= lines.len(),
            dv == lines.deep_view(),
            dv.len() == lines.len(),
            matches.deep_view() == scan_matches(dv.take(i as int), config.query@, config.options.i),
        decreases lines.len() - i,
    {
        let ghost pre = matches.deep_view();
        proof {
            assert(dv[i as int] == lines@[i as int].deep_view());
            assert(dv.take(i as int + 1).drop_last() =~= dv.take(i as int));
            assert(dv.take(i as int + 1).last() == dv[i as int]);
        }
        match &lines[i] {
            Some(line) => {
                if line_is_match(line.as_str(), config.query.as_str(), config.options.i) {
                    matches.push(Record { line_number: i + 1, data: line.clone() });
                    proof {
                        assert(matches.deep_view() =~= pre.push(
                            RecordView { line_number: i as int + 1, data: line@ },
                        ));
                    }
                }
            },
            None => {},
        }
        i = i + 1;
    }

    proof {
        assert(dv.take(dv.len() as int) =~= dv);
    }
    matches
}

/// The matches come out in ascending line-number order, each number between
/// 1 and the number of lines scanned.
pub proof fn lemma_matches_ascending(lines: Seq<Option<Seq<char>>>, query: Seq<char>, ic: bool)
    ensures
        forall|j: int|
            0 <= j < scan_matches(lines, query, ic).len() ==> 1 <= #[trigger] scan_matches(
                lines,
                query,
                ic,
            )[j].line_number <= lines.len(),
        forall|j: int, k: int|
            0 <= j < k < scan_matches(lines, query, ic).len() ==> scan_matches(
                lines,
                query,
                ic,
            )[j].line_number < scan_matches(lines, query, ic)[k].line_number,
    decreases lines.len(),
{
    if lines.len() > 0 {
        lemma_matches_ascending(lines.drop_last(), query, ic);
        let pre = scan_matches(lines.drop_last(), query, ic);
        let s = scan_matches(lines, query, ic);
        assert(lines.drop_last().len() == lines.len() - 1);
        match lines.last() {
            Some(l) => {
                if line_matches(l, query, ic) {
                    assert(s == pre.push(
                        RecordView { line_number: lines.len() as int, data: l },
                    ));
                    assert forall|j: int| 0 <= j < s.len() implies 1 <= (#[trigger] s[j]).line_number
                        <= lines.len() by {
                        if j < pre.len() {
                            assert(s[j] == pre[j]);
                        }
                    }
                    assert forall|j: int, k: int| 0 <= j < k < s.len() implies s[j].line_number
                        < s[k].line_number by {
                        if k < pre.len() {
                            assert(s[j] == pre[j] && s[k] == pre[k]);
                        } else {
                            assert(s[j] == pre[j]);
                            assert(s[k].line_number == lines.len());
                        }
                    }
                } else {
                    assert(s == pre);
                }
            },
            None => {
                assert(s == pre);
            },
        }
    }
}

} // verus!
