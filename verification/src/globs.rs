//! Shell-style glob patterns, compiled and matched by the `glob` crate.
use glob::{MatchOptions, Pattern};
use vstd::prelude::*;

verus! {

/// The `glob` crate's compiled pattern, carried through opaquely.
#[verifier::external_type_specification]
#[verifier::external_body]
pub struct ExPattern(Pattern);

/// What `Pattern::new` gives for a pattern: `Ok` when it compiles, else
/// `Err` with the displayed `PatternError`.
pub uninterp spec fn glob_pattern_new(pattern: Seq<char>) -> Result<(), Seq<char>>;

/// What `Pattern::matches_with` answers for the pattern compiled from
/// `pattern`, the text `path`, and these match options.
pub uninterp spec fn glob_match(
    pattern: Seq<char>,
    path: Seq<char>,
    case_sensitive: bool,
    require_literal_separator: bool,
    require_literal_leading_dot: bool,
) -> bool;

/// How patterns are matched (the fields of `glob::MatchOptions`).
#[derive(Clone, Copy, Debug)]
pub struct GlobOptions {
    pub case_sensitive: bool,
    pub require_literal_separator: bool,
    pub require_literal_leading_dot: bool,
}

/// A compiled glob pattern, with the text it was compiled from. It can only
/// be made by [`compile`].
pub struct Glob {
    pattern: Pattern,
    source: Ghost<Seq<char>>,
}

impl Glob {
    /// The pattern text this glob was compiled from.
    pub closed spec fn source(&self) -> Seq<char> {
        self.source@
    }
}

/// Compiles `p` with `Pattern::new`.
///
/// The contract names the outcome: whether `p` compiles and, if not, the
/// error's message, are those of `glob_pattern_new(p)`; the compiled glob
/// records `p` as its source.
#[verifier::external_body]
pub(crate) fn compile(p: &str) -> (r: Result<Glob, String>)
    ensures
        match r {
            Ok(g) => glob_pattern_new(p@) == Ok::<(), Seq<char>>(()) && g.source() == p@,
            Err(m) => glob_pattern_new(p@) == Err::<(), Seq<char>>(m@),
        },
{
    match Pattern::new(p) {
        Ok(pattern) => Ok(Glob { pattern, source: Ghost(p@) }),
        Err(e) => Err(e.to_string()),
    }
}

/// Asks `Pattern::matches_with` whether `path` matches `g` under `opts`.
///
/// The answer is named: it is `glob_match` of the glob's source text, the
/// path and the options, which is what determines it.
#[verifier::external_body]
pub(crate) fn matches(g: &Glob, path: &str, opts: GlobOptions) -> (b: bool)
    ensures
        b == glob_match(
            g.source(),
            path@,
            opts.case_sensitive,
            opts.require_literal_separator,
            opts.require_literal_leading_dot,
        ),
{
    g.pattern.matches_with(
        path,
        MatchOptions {
            case_sensitive: opts.case_sensitive,
            require_literal_separator: opts.require_literal_separator,
            require_literal_leading_dot: opts.require_literal_leading_dot,
        },
    )
}

} // verus!
