use crate::Options;
use crate::parser::{self, ParseError};
use vstd::prelude::*;

verus! {

/// Holds the validated user input: the query string, the file path, and the
/// set of option flags. Immutable once built.
pub struct Config {
    pub path: String,
    pub query: String,
    pub options: Options,
}

/// The mathematical value of a [`Config`]: both strings as character
/// sequences, beside the option set.
#[verifier::ext_equal]
pub struct ConfigView {
    pub path: Seq<char>,
    pub query: Seq<char>,
    pub options: Options,
}

impl View for Config {
    type V = ConfigView;

    open spec fn view(&self) -> ConfigView {
        ConfigView { path: self.path@, query: self.query@, options: self.options }
    }
}

impl Config {
    /// Parses the user input and constructs a `Config`, or reports the first
    /// parse error. The outcome is exactly [`parser::parse_result`] of the
    /// argument views.
    pub fn build(args: Vec<String>) -> (r: Result<Config, ParseError>)
        ensures
            match parser::parse_result(args.deep_view()) {
                Ok(m) => r matches Ok(c) && c@ == m,
                Err(e) => r matches Err(e2) && e2 == e,
            },
    {
        parser::parse(args)
    }
}

} // verus!
