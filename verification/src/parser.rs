use crate::Options;
use crate::config::{Config, ConfigView};
use vstd::prelude::*;
use vstd::string::StrSliceExecFns;

verus! {

/// The ways parsing the process arguments can fail. Parsing stops at the
/// first error; the variants are mutually exclusive.
#[derive(PartialEq, Eq, Debug, Clone, Copy, Structural)]
pub enum ParseError {
    /// An unrecognized flag letter was supplied.
    InvalidOption,
    /// A third positional token was supplied.
    TooManyArguments,
    /// No positional token was left to become the query.
    MissingQuery,
    /// No positional token was left to become the file path.
    MissingPath,
}

impl ParseError {
    /// The short descriptive message of each error.
    pub open spec fn spec_message(self) -> Seq<char> {
        match self {
            ParseError::InvalidOption => "invalid option"@,
            ParseError::TooManyArguments => "Too many arguments."@,
            ParseError::MissingQuery => "No query specified."@,
            ParseError::MissingPath => "No file path specified."@,
        }
    }

    /// The message surfaced verbatim to the caller.
    pub fn message(&self) -> (m: &'static str)
        ensures
            m@ == self.spec_message(),
    {
        match self {
            ParseError::InvalidOption => "invalid option",
            ParseError::TooManyArguments => "Too many arguments.",
            ParseError::MissingQuery => "No query specified.",
            ParseError::MissingPath => "No file path specified.",
        }
    }
}

/// The letters recognized inside a flag token.
pub open spec fn is_flag_char(c: char) -> bool {
    c == 'b' || c == 'c' || c == 'i'
}

/// Switching one flag letter on, or `None` for an unrecognized letter.
pub open spec fn apply_flag(o: Options, c: char) -> Option<Options> {
    if c == 'b' {
        Some(Options { b: true, c: o.c, i: o.i })
    } else if c == 'c' {
        Some(Options { b: o.b, c: true, i: o.i })
    } else if c == 'i' {
        Some(Options { b: o.b, c: o.c, i: true })
    } else {
        None
    }
}

/// Switching on every letter of a flag token in turn; the first unrecognized
/// letter aborts the whole parse.
pub open spec fn apply_flags(o: Options, cs: Seq<char>) -> Result<Options, ParseError>
    decreases cs.len(),
{
    if cs.len() == 0 {
        Ok(o)
    } else {
        match apply_flag(o, cs[0]) {
            Some(o2) => apply_flags(o2, cs.skip(1)),
            None => Err(ParseError::InvalidOption),
        }
    }
}

/// A token is a flag token when it starts with the flag-prefix character.
pub open spec fn is_flag_token(t: Seq<char>) -> bool {
    t.len() >= 1 && t[0] == '-'
}

/// The parser's accumulated state: the flags seen so far and the positional
/// slots, each filled at most once.
#[verifier::ext_equal]
pub struct ParseState {
    pub options: Options,
    pub query: Option<Seq<char>>,
    pub path: Option<Seq<char>>,
}

/// Before any token is consumed: no flag set, both positional slots empty.
pub open spec fn initial_state() -> ParseState {
    ParseState { options: Options { b: false, c: false, i: false }, query: None, path: None }
}

/// Consuming one token: a flag token updates the option set; a positional
/// token fills the query slot first, then the path slot; a third positional
/// token is an error.
pub open spec fn step(st: ParseState, t: Seq<char>) -> Result<ParseState, ParseError> {
    if is_flag_token(t) {
        match apply_flags(st.options, t.skip(1)) {
            Ok(o) => Ok(ParseState { options: o, query: st.query, path: st.path }),
            Err(e) => Err(e),
        }
    } else if st.query is None {
        Ok(ParseState { options: st.options, query: Some(t), path: st.path })
    } else if st.path is None {
        Ok(ParseState { options: st.options, query: st.query, path: Some(t) })
    } else {
        Err(ParseError::TooManyArguments)
    }
}

/// Consuming a whole token sequence from left to right, stopping at the
/// first error.
pub open spec fn run_tokens(st: ParseState, tokens: Seq<Seq<char>>) -> Result<
    ParseState,
    ParseError,
>
    decreases tokens.len(),
{
    if tokens.len() == 0 {
        Ok(st)
    } else {
        match step(st, tokens[0]) {
            Ok(st2) => run_tokens(st2, tokens.skip(1)),
            Err(e) => Err(e),
        }
    }
}

/// After all tokens are consumed: the query slot is checked first, then the
/// path slot; with both filled the configuration is complete.
pub open spec fn complete(st: ParseState) -> Result<ConfigView, ParseError> {
    match st.query {
        Some(q) => match st.path {
            Some(p) => Ok(ConfigView { path: p, query: q, options: st.options }),
            None => Err(ParseError::MissingPath),
        },
        None => Err(ParseError::MissingQuery),
    }
}

/// The tokens that remain once the leading program name is discarded; an
/// empty sequence is treated as already empty.
pub open spec fn rest_tokens(args: Seq<Seq<char>>) -> Seq<Seq<char>> {
    if args.len() == 0 {
        args
    } else {
        args.skip(1)
    }
}

/// What parsing an argument sequence yields: the validated configuration, or
/// the first error in consumption order.
pub open spec fn parse_result(args: Seq<Seq<char>>) -> Result<ConfigView, ParseError> {
    match run_tokens(initial_state(), rest_tokens(args)) {
        Ok(st) => complete(st),
        Err(e) => Err(e),
    }
}

/// The state a partial parse has reached, as a spec value.
pub open spec fn state_of(
    options: Options,
    query: Option<Seq<char>>,
    path: Option<Seq<char>>,
) -> ParseState {
    ParseState { options, query, path }
}

/// A flag token all of whose letters are recognized flag letters.
pub open spec fn valid_flag_token(t: Seq<char>) -> bool {
    is_flag_token(t) && forall|i: int| 1 <= i < t.len() ==> is_flag_char(t[i])
}

proof fn lemma_apply_flags_valid(o: Options, cs: Seq<char>)
    requires
        forall|i: int| 0 <= i < cs.len() ==> is_flag_char(cs[i]),
    ensures
        apply_flags(o, cs) is Ok,
    decreases cs.len(),
{
    if cs.len() > 0 {
        assert(is_flag_char(cs[0]));
        if let Some(o2) = apply_flag(o, cs[0]) {
            assert(forall|i: int| 0 <= i < cs.skip(1).len() ==> cs.skip(1)[i] == cs[i + 1]);
            lemma_apply_flags_valid(o2, cs.skip(1));
        }
    }
}

proof fn lemma_run_tokens_flags_only(st: ParseState, tokens: Seq<Seq<char>>)
    requires
        forall|k: int| 0 <= k < tokens.len() ==> valid_flag_token(tokens[k]),
    ensures
        run_tokens(st, tokens) matches Ok(st2) && st2.query == st.query && st2.path == st.path,
    decreases tokens.len(),
{
    if tokens.len() > 0 {
        let t = tokens[0];
        assert(valid_flag_token(t));
        assert(forall|i: int| 0 <= i < t.skip(1).len() ==> t.skip(1)[i] == t[i + 1]);
        lemma_apply_flags_valid(st.options, t.skip(1));
        if let Ok(o) = apply_flags(st.options, t.skip(1)) {
            let st2 = ParseState { options: o, query: st.query, path: st.path };
            assert(step(st, t) == Ok::<ParseState, ParseError>(st2));
            assert(forall|k: int|
                0 <= k < tokens.skip(1).len() ==> tokens.skip(1)[k] == tokens[k + 1]);
            lemma_run_tokens_flags_only(st2, tokens.skip(1));
        }
    }
}

/// An argument sequence with no positional token at all — every token after
/// the discarded program name is a flag token of recognized letters — leaves
/// the query slot empty, so parsing fails with `MissingQuery`.
pub proof fn lemma_no_positionals_missing_query(args: Seq<Seq<char>>)
    requires
        forall|k: int| 1 <= k < args.len() ==> valid_flag_token(#[trigger] args[k]),
    ensures
        parse_result(args) == Err::<ConfigView, ParseError>(ParseError::MissingQuery),
{
    let tokens = rest_tokens(args);
    assert(forall|k: int| 0 <= k < tokens.len() ==> valid_flag_token(#[trigger] tokens[k]));
    lemma_run_tokens_flags_only(initial_state(), tokens);
}

/// An argument sequence whose only positional token stands first — in the
/// program-name slot, where it is discarded — fails with `MissingQuery`,
/// whatever flags stand beside it.
pub proof fn lemma_single_positional_missing_query(args: Seq<Seq<char>>)
    requires
        args.len() >= 1,
        !is_flag_token(args[0]),
        forall|k: int| 1 <= k < args.len() ==> valid_flag_token(#[trigger] args[k]),
    ensures
        parse_result(args) == Err::<ConfigView, ParseError>(ParseError::MissingQuery),
{
    lemma_no_positionals_missing_query(args);
}

/// Parses the user input and constructs an `Options` value and a `Config`,
/// returning the `Config`; the first element of `args` is the program name
/// and is discarded. The outcome is exactly [`parse_result`] of the argument
/// views.
pub fn parse(args: Vec<String>) -> (r: Result<Config, ParseError>)
    ensures
        match parse_result(args.deep_view()) {
            Ok(m) => r matches Ok(c) && c@ == m,
            Err(e) => r matches Err(e2) && e2 == e,
        },
{
    let ghost all: Seq<Seq<char>> = args.deep_view();
    let ghost tokens: Seq<Seq<char>> = rest_tokens(all);
    let mut options = Options::default();
    let mut query: Option<String> = None;
    let mut path: Option<String> = None;
    let n: usize = args.len();
    let mut idx: usize = if n == 0 {
        0
    } else {
        1
    };

    proof {
        assert(tokens.skip(0) =~= tokens);
        assert(state_of(options, query.deep_view(), path.deep_view()) == initial_state());
    }

    while idx < n
        invariant
            n == args.len(),
            all == args.deep_view(),
            tokens == rest_tokens(all),
            n == 0 ==> idx == 0,
            n >= 1 ==> 1 <= idx <= n,
            run_tokens(initial_state(), tokens) == run_tokens(
                state_of(options, query.deep_view(), path.deep_view()),
                tokens.skip(if n == 0 { 0int } else { idx as int - 1 }),
            ),
        decreases n - idx,
    {
        let ghost k: int = idx as int - 1;
        let ghost st_pre: ParseState = state_of(options, query.deep_view(), path.deep_view());
        let arg: &String = &args[idx];
        proof {
            assert(all[idx as int] == args@[idx as int]@);
            assert(tokens[k] == all[idx as int]);
            assert(tokens.skip(k)[0] == tokens[k]);
            assert(tokens.skip(k).skip(1) =~= tokens.skip(k + 1));
        }
        let a: &str = arg.as_str();
        let len: usize = a.unicode_len();
        if len >= 1 && a.get_char(0) == '-' {
            let ghost opts0: Options = options;
            let mut j: usize = 1;
            while j < len
                invariant
                    1 <= j <= len,
                    len == a@.len(),
                    is_flag_token(a@),
                    n == args.len(),
                    all == args.deep_view(),
                    tokens == rest_tokens(all),
                    n >= 1 && 1 <= idx < n,
                    k == idx as int - 1,
                    tokens[k] == a@,
                    apply_flags(opts0, a@.skip(1)) == apply_flags(options, a@.skip(j as int)),
                    st_pre == state_of(opts0, query.deep_view(), path.deep_view()),
                    run_tokens(initial_state(), tokens) == run_tokens(st_pre, tokens.skip(k)),
                decreases len - j,
            {
                let ch: char = a.get_char(j);
                let newopts: Options;
                if ch == 'b' {
                    newopts = Options { b: true, c: options.c, i: options.i };
                } else if ch == 'c' {
                    newopts = Options { b: options.b, c: true, i: options.i };
                } else if ch == 'i' {
                    newopts = Options { b: options.b, c: options.c, i: true };
                } else {
                    proof {
                        assert(a@.skip(j as int)[0] == a@[j as int]);
                        assert(apply_flags(options, a@.skip(j as int)) == Err::<Options,
                            ParseError,
                        >(ParseError::InvalidOption));
                        assert(step(st_pre, a@) == Err::<ParseState, ParseError>(
                            ParseError::InvalidOption,
                        ));
                        assert(tokens.skip(k).len() >= 1 && tokens.skip(k)[0] == a@);
                        assert(run_tokens(st_pre, tokens.skip(k)) == Err::<ParseState, ParseError>(
                            ParseError::InvalidOption,
                        ));
                    }
                    return Err(ParseError::InvalidOption);
                }
                proof {
                    assert(a@.skip(j as int)[0] == a@[j as int]);
                    assert(a@.skip(j as int).skip(1) =~= a@.skip(j as int + 1));
                    assert(apply_flag(options, ch) == Some(newopts));
                }
                options = newopts;
                j = j + 1;
            }
            proof {
                assert(a@.skip(len as int) =~= Seq::<char>::empty());
                assert(apply_flags(options, a@.skip(len as int)) == Ok::<Options, ParseError>(
                    options,
                ));
                assert(apply_flags(opts0, a@.skip(1)) == Ok::<Options, ParseError>(options));
                assert(step(st_pre, a@) == Ok::<ParseState, ParseError>(
                    state_of(options, query.deep_view(), path.deep_view()),
                ));
                assert(run_tokens(st_pre, tokens.skip(k)) == run_tokens(
                    state_of(options, query.deep_view(), path.deep_view()),
                    tokens.skip(k + 1),
                ));
            }
        } else {
            proof {
                assert(!is_flag_token(a@));
            }
            if query.is_none() {
                query = Some(arg.clone());
                proof {
                    assert(step(st_pre, a@) == Ok::<ParseState, ParseError>(
                        state_of(options, query.deep_view(), path.deep_view()),
                    ));
                }
            } else if path.is_none() {
                path = Some(arg.clone());
                proof {
                    assert(step(st_pre, a@) == Ok::<ParseState, ParseError>(
                        state_of(options, query.deep_view(), path.deep_view()),
                    ));
                }
            } else {
                proof {
                    assert(step(st_pre, a@) == Err::<ParseState, ParseError>(
                        ParseError::TooManyArguments,
                    ));
                    assert(run_tokens(st_pre, tokens.skip(k)) == Err::<ParseState, ParseError>(
                        ParseError::TooManyArguments,
                    ));
                }
                return Err(ParseError::TooManyArguments);
            }
            proof {
                assert(run_tokens(st_pre, tokens.skip(k)) == run_tokens(
                    state_of(options, query.deep_view(), path.deep_view()),
                    tokens.skip(k + 1),
                ));
            }
        }
        idx = idx + 1;
    }

    proof {
        let final_skip: int = if n == 0 { 0int } else { idx as int - 1 };
        assert(tokens.skip(final_skip) =~= Seq::<Seq<char>>::empty());
        assert(run_tokens(state_of(options, query.deep_view(), path.deep_view()),
            tokens.skip(final_skip)) == Ok::<ParseState, ParseError>(
            state_of(options, query.deep_view(), path.deep_view()),
        ));
    }

    let q: String = match query {
        Some(q) => q,
        None => {
            return Err(ParseError::MissingQuery);
        },
    };
    let p: String = match path {
        Some(p) => p,
        None => {
            return Err(ParseError::MissingPath);
        },
    };
    Ok(Config { path: p, query: q, options })
}

} // verus!

