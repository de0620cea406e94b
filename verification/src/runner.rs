use crate::Options;
use crate::config::Config;
use crate::matcher::{matcher, scan_matches};
use crate::record::Record;
use vstd::prelude::*;

verus! {

/// What the tool writes for a finished scan, by the active options. One mode
/// is chosen with a fixed precedence: a bare count first, then numbered
/// lines, then plain lines, and nothing when no display flag is set.
pub enum Output {
    /// Only the number of matching lines is written (`-c`).
    MatchCount(usize),
    /// Each record is written with its line number in front (`-b`).
    NumberedLines(Vec<Record>),
    /// Each record's text is written plain (`-i` without `-b` or `-c`).
    PlainLines(Vec<Record>),
    /// No display flag is set: nothing is written for the matched lines.
    Silent,
}

/// Selects the output for a scan's matches under the given options.
///
/// The count takes precedence over every other flag: whenever the count flag
/// is set, the output is exactly the number of records the matcher returned,
/// whatever other flags are set beside it.
pub fn output_for(options: &Options, matches: Vec<Record>) -> (out: Output)
    ensures
        options.c ==> (out matches Output::MatchCount(n) && n == matches@.len()),
        !options.c && options.b ==> (out matches Output::NumberedLines(v) && v@ == matches@),
        !options.c && !options.b && options.i ==> (out matches Output::PlainLines(v) && v@
            == matches@),
        !options.c && !options.b && !options.i ==> (out matches Output::Silent),
{
    if options.c {
        Output::MatchCount(matches.len())
    } else if options.b {
        Output::NumberedLines(matches)
    } else if options.i {
        Output::PlainLines(matches)
    } else {
        Output::Silent
    }
}

/// The compute part of one invocation once parsing is done: scan the given
/// lines for the configuration's query and select the output the options
/// call for.
///
/// In count mode the output equals the number of records the matcher returns
/// for the same configuration, independent of the other flags; in the two
/// line-printing modes the records come through unchanged.
pub fn run_scan(config: &Config, lines: &Vec<Option<String>>) -> (out: Output)
    ensures
        config.options.c ==> (out matches Output::MatchCount(n) && n == scan_matches(
            lines.deep_view(),
            config.query@,
            config.options.i,
        ).len()),
        !config.options.c && config.options.b ==> (out matches Output::NumberedLines(v)
            && v.deep_view() == scan_matches(lines.deep_view(), config.query@, config.options.i)),
        !config.options.c && !config.options.b && config.options.i ==> (out
            matches Output::PlainLines(v) && v.deep_view() == scan_matches(
            lines.deep_view(),
            config.query@,
            config.options.i,
        )),
        !config.options.c && !config.options.b && !config.options.i ==> (out
            matches Output::Silent),
{
    let matches = matcher(config, lines);
    let ghost matches_dv = matches.deep_view();
    let out = output_for(&config.options, matches);
    proof {
        match &out {
            Output::NumberedLines(v) => {
                assert(v.deep_view() =~= matches_dv);
            },
            Output::PlainLines(v) => {
                assert(v.deep_view() =~= matches_dv);
            },
            _ => {},
        }
    }
    out
}

} // verus!
