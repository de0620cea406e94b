use vstd::prelude::*;

verus! {

/// The option flags a user may switch on.
#[derive(PartialEq, Eq, Hash, Debug, Clone, Copy, Structural)]
pub enum Options {
    // -b, --byte-offset
    // The offset of a matched pattern is displayed in front of the respective matched line.
    ByteOffset,
    // -c, --count
    // Only a count of selected lines is written to standard output.
    Count,
    // -i, --ignore-case
    // Perform case insensitive matching. By default, matching is case sensitive.
    IgnoreCase,
}

} // verus!
