//! A small line-matching library.
//!
//! Process arguments are parsed into a validated [`Config`] (query string,
//! file path, option set) by [`parser::parse`]; the matching engine
//! [`matcher::matcher`] then scans a file's lines in order and collects the
//! matching records; [`runner::output_for`] picks the output that the active
//! options call for. Opening and reading the file, and printing, are left to
//! the surrounding program.
use vstd::prelude::*;

pub mod config;
pub mod matcher;
pub mod options;
pub mod parser;
pub mod record;
pub mod runner;

pub use config::Config;

verus! {

/// Holds the option flags provided by the user, one field per flag.
///
/// Abstractly this is a set over the [`options::Options`] enumeration: a flag
/// is either in the set or not, however often it was repeated in the input.
#[derive(PartialEq, Eq, Debug, Clone, Copy, Structural)]
pub struct Options {
    /// -b, --byte-offset
    pub b: bool,
    /// -c, --count
    pub c: bool,
    /// -i, --ignore-case
    pub i: bool,
}

impl View for Options {
    type V = Set<options::Options>;

    open spec fn view(&self) -> Set<options::Options> {
        Set::new(
            |o: options::Options|
                match o {
                    options::Options::ByteOffset => self.b,
                    options::Options::Count => self.c,
                    options::Options::IgnoreCase => self.i,
                },
        )
    }
}

impl Options {
    /// Membership test over the abstract option set.
    pub fn contains(&self, o: &options::Options) -> (r: bool)
        ensures
            r == self@.contains(*o),
    {
        match *o {
            options::Options::ByteOffset => self.b,
            options::Options::Count => self.c,
            options::Options::IgnoreCase => self.i,
        }
    }
}

impl Default for Options {
    /// The empty option set: no flag is switched on.
    fn default() -> (r: Self)
        ensures
            r == (Options { b: false, c: false, i: false }),
    {
        Options { b: false, c: false, i: false }
    }
}

} // verus!
