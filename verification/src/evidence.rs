//! Evidence gathering — collect file contents within a spec's scope.
//!
//! The subject's tree is walked (gitignore-aware) by the caller; for each
//! entry this module decides: whether it is in scope (the spec's
//! `default_scope`, or a `--scope` override), whether it is small enough,
//! and whether its content is text. Skips are counted in [`GatherStats`] so
//! that an audit does not silently ignore part of the subject. Everything
//! gathered goes into a single [`EvidenceChunk`]; gathering nothing is an
//! error.
use crate::globs::{self, Glob, GlobOptions, glob_match, glob_pattern_new};
use crate::spec::{MetaModel, Spec};
use crate::strings::{owned, views};
use crate::subject::Subject;
use vstd::prelude::*;

verus! {

/// Files larger than this many bytes are skipped (and counted).
pub const MAX_FILE_BYTES: u64 = 262144;

/// How many walk-error messages are kept as a sample.
pub const WALK_ERROR_SAMPLE_CAP: usize = 5;

/// The pattern that stands for "every file".
pub open spec fn all_files_pattern() -> Seq<char> {
    "**/*"@
}

/// Gitignore-style separator semantics: `*` does not cross `/`, `**` does;
/// case-sensitive; a leading dot needs no literal match.
pub fn glob_opts() -> (o: GlobOptions)
    ensures
        o.case_sensitive,
        o.require_literal_separator,
        !o.require_literal_leading_dot,
{
    GlobOptions {
        case_sensitive: true,
        require_literal_separator: true,
        require_literal_leading_dot: false,
    }
}

/// Whether `path` matches the pattern `p` under [`glob_opts`].
pub open spec fn pattern_matches(p: Seq<char>, path: Seq<char>) -> bool {
    glob_match(p, path, true, true, false)
}

/// Whether some pattern of `ps` matches `path`.
pub open spec fn any_matches(ps: Seq<Seq<char>>, path: Seq<char>) -> bool {
    exists|i: int| 0 <= i < ps.len() && pattern_matches(#[trigger] ps[i], path)
}

/// A path is in scope when some include pattern matches it and no exclude
/// pattern does.
pub open spec fn in_scope(inc: Seq<Seq<char>>, exc: Seq<Seq<char>>, path: Seq<char>) -> bool {
    any_matches(inc, path) && !any_matches(exc, path)
}

/// The include and exclude patterns in effect: a `--scope` override replaces
/// the spec's include list but keeps its exclude list; a spec without a
/// scope, or with an empty include list, includes every file.
pub open spec fn scope_patterns(meta: MetaModel, over: Option<Seq<char>>) -> (Seq<Seq<char>>, Seq<Seq<char>>) {
    match over {
        Some(o) => match meta.scope {
            Some(sc) => (seq![o], sc.excludes),
            None => (seq![o], Seq::empty()),
        },
        None => match meta.scope {
            Some(sc) => (
                if sc.includes.len() == 0 {
                    seq![all_files_pattern()]
                } else {
                    sc.includes
                },
                sc.excludes,
            ),
            None => (seq![all_files_pattern()], Seq::empty()),
        },
    }
}

/// A `--scope` override replaces the include list with its one pattern and
/// leaves the spec's exclude list in force: a path that the spec excludes
/// stays out of scope whatever the override says.
pub proof fn lemma_override_keeps_excludes(meta: MetaModel, over: Seq<char>, path: Seq<char>)
    ensures
        scope_patterns(meta, Some(over)).0 == seq![over],
        scope_patterns(meta, Some(over)).1 == scope_patterns(meta, None).1,
        any_matches(scope_patterns(meta, None).1, path) ==> !in_scope(
            scope_patterns(meta, Some(over)).0,
            scope_patterns(meta, Some(over)).1,
            path,
        ),
{
}

/// The patterns in effect, pattern by pattern: a `--scope` override is the
/// only include pattern, else the spec's includes (every file when it has
/// none, or no scope); the excludes are always every one of the spec's
/// exclude patterns, in order, and none without a scope.
pub proof fn lemma_scope_patterns_exact(meta: MetaModel, over: Option<Seq<char>>)
    ensures
        meta.scope matches Some(sc) ==> scope_patterns(meta, over).1 == sc.excludes,
        meta.scope is None ==> scope_patterns(meta, over).1 == Seq::<Seq<char>>::empty(),
        over matches Some(o) ==> scope_patterns(meta, over).0 == seq![o],
        over is None && meta.scope is Some && meta.scope->0.includes.len() > 0 ==> scope_patterns(
            meta,
            over,
        ).0 == meta.scope->0.includes,
        over is None && (meta.scope is None || meta.scope->0.includes.len() == 0) ==> scope_patterns(
            meta,
            over,
        ).0 == seq!["**/*"@],
{
}

/// A path that any exclude pattern matches (with gitignore-style
/// separators) is out of scope, whatever the includes.
pub proof fn lemma_excluded_path_is_out_of_scope(
    inc: Seq<Seq<char>>,
    exc: Seq<Seq<char>>,
    path: Seq<char>,
    j: int,
)
    requires
        0 <= j < exc.len(),
        glob_match(exc[j], path, true, true, false),
    ensures
        !in_scope(inc, exc, path),
{
    assert(pattern_matches(exc[j], path));
}

/// A path is in scope when some include pattern matches it and no exclude
/// pattern does, and out of scope when no include pattern matches it.
pub proof fn lemma_in_scope_by_patterns(inc: Seq<Seq<char>>, exc: Seq<Seq<char>>, path: Seq<char>, i: int)
    ensures
        0 <= i < inc.len() && glob_match(inc[i], path, true, true, false) && (forall|j: int|
            0 <= j < exc.len() ==> !glob_match(#[trigger] exc[j], path, true, true, false))
            ==> in_scope(inc, exc, path),
        (forall|k: int| 0 <= k < inc.len() ==> !glob_match(#[trigger] inc[k], path, true, true, false))
            ==> !in_scope(inc, exc, path),
{
    if 0 <= i < inc.len() && glob_match(inc[i], path, true, true, false) {
        assert(pattern_matches(inc[i], path));
    }
}

/// The first pattern of `ps` that does not compile, or `-1`.
pub open spec fn first_invalid(ps: Seq<Seq<char>>) -> int
    decreases ps.len(),
{
    if ps.len() == 0 {
        -1
    } else if glob_pattern_new(ps[0]) is Err {
        0
    } else {
        let r = first_invalid(ps.drop_first());
        if r < 0 {
            -1
        } else {
            r + 1
        }
    }
}

proof fn lemma_first_invalid(ps: Seq<Seq<char>>)
    ensures
        -1 <= first_invalid(ps) < ps.len(),
        first_invalid(ps) >= 0 ==> glob_pattern_new(ps[first_invalid(ps)]) is Err,
        forall|k: int|
            0 <= k < ps.len() && (first_invalid(ps) < 0 || k < first_invalid(ps)) ==> (
            glob_pattern_new(#[trigger] ps[k]) is Ok),
    decreases ps.len(),
{
    if ps.len() > 0 && !(glob_pattern_new(ps[0]) is Err) {
        lemma_first_invalid(ps.drop_first());
        assert forall|k: int|
            0 <= k < ps.len() && (first_invalid(ps) < 0 || k < first_invalid(ps)) implies (
            glob_pattern_new(#[trigger] ps[k]) is Ok) by {
            if k > 0 {
                assert(ps[k] == ps.drop_first()[k - 1]);
            }
        }
    }
}

/// The pattern texts of compiled globs.
pub open spec fn sources(gs: Seq<Glob>) -> Seq<Seq<char>> {
    gs.map_values(|g: Glob| g.source())
}

/// Which pattern list a bad pattern was in.
#[derive(Clone, Copy, Debug, PartialEq, Eq, Structural)]
pub enum PatternList {
    Includes,
    Excludes,
}

/// Why evidence could not be gathered.
#[derive(Clone, Debug)]
pub enum EvidenceError {
    /// A pattern does not compile.
    InvalidGlob { list: PatternList, pattern: String, detail: String },
    /// Nothing under the subject's root is in scope.
    NoFilesMatched { root: String },
}

/// The message of an evidence error.
pub open spec fn evidence_error_message(e: EvidenceError) -> Seq<char> {
    match e {
        EvidenceError::InvalidGlob { list, pattern, detail } => (match list {
            PatternList::Includes => "compiling include globs: invalid glob `"@,
            PatternList::Excludes => "compiling exclude globs: invalid glob `"@,
        }) + pattern@ + "`: "@ + detail@,
        EvidenceError::NoFilesMatched { root } => "no files matched after applying include patterns AND spec excludes under "@
            + root@
            + ".\n  Both default_scope.include + default_scope.exclude (and --scope, if passed) are in play. Check that the includes cover the right files AND that no exclude pattern is clobbering them."@,
    }
}

impl EvidenceError {
    /// The error's message, with its cause after a colon.
    pub fn message(&self) -> (m: String)
        ensures
            m@ == evidence_error_message(*self),
    {
        match self {
            EvidenceError::InvalidGlob { list, pattern, detail } => {
                let mut m = match list {
                    PatternList::Includes => String::from_str(
                        "compiling include globs: invalid glob `",
                    ),
                    PatternList::Excludes => String::from_str(
                        "compiling exclude globs: invalid glob `",
                    ),
                };
                m.append(pattern.as_str());
                m.append("`: ");
                m.append(detail.as_str());
                m
            },
            EvidenceError::NoFilesMatched { root } => {
                let mut m = String::from_str(
                    "no files matched after applying include patterns AND spec excludes under ",
                );
                m.append(root.as_str());
                m.append(
                    ".\n  Both default_scope.include + default_scope.exclude (and --scope, if passed) are in play. Check that the includes cover the right files AND that no exclude pattern is clobbering them.",
                );
                m
            },
        }
    }
}

/// Compiles every pattern, in order; the first that does not compile is
/// reported with its message.
fn compile_globs(patterns: &Vec<String>) -> (r: Result<Vec<Glob>, (String, String)>)
    ensures
        match r {
            Ok(gs) => first_invalid(views(patterns@)) == -1 && sources(gs@) == views(patterns@),
            Err((p, d)) => first_invalid(views(patterns@)) >= 0 && p@ == views(
                patterns@,
            )[first_invalid(views(patterns@))] && glob_pattern_new(p@) == Err::<(), Seq<char>>(
                d@,
            ),
        },
{
    let ghost ps = views(patterns@);
    proof {
        lemma_first_invalid(ps);
    }
    let mut out: Vec<Glob> = Vec::new();
    let mut i: usize = 0;
    proof {
        assert(sources(out@) =~= ps.subrange(0, 0));
    }
    while i < patterns.len()
        invariant
            i <= patterns.len(),
            ps == views(patterns@),
            sources(out@) == ps.subrange(0, i as int),
            forall|k: int| 0 <= k < i ==> glob_pattern_new(#[trigger] ps[k]) is Ok,
            -1 <= first_invalid(ps) < ps.len(),
            first_invalid(ps) >= 0 ==> glob_pattern_new(ps[first_invalid(ps)]) is Err,
            forall|k: int|
                0 <= k < ps.len() && (first_invalid(ps) < 0 || k < first_invalid(ps)) ==> (
                glob_pattern_new(#[trigger] ps[k]) is Ok),
        decreases patterns.len() - i,
    {
        proof {
            assert(ps[i as int] == patterns@[i as int]@);
        }
        match globs::compile(patterns[i].as_str()) {
            Ok(g) => {
                let ghost before = sources(out@);
                out.push(g);
                proof {
                    assert(sources(out@) =~= before.push(g.source()));
                    assert(ps.subrange(0, i + 1) =~= ps.subrange(0, i as int).push(ps[i as int]));
                }
            },
            Err(d) => {
                return Err((patterns[i].clone(), d));
            },
        }
        i = i + 1;
    }
    proof {
        assert(ps.subrange(0, i as int) =~= ps);
    }
    Ok(out)
}

/// Compiled include/exclude patterns. A path matches the scope when at
/// least one include pattern matches and no exclude pattern matches.
pub struct CompiledScope {
    pub includes: Vec<Glob>,
    pub exclude: Vec<Glob>,
}

impl CompiledScope {
    /// Whether `path` is in this scope.
    pub open spec fn spec_matches(&self, path: Seq<char>) -> bool {
        in_scope(sources(self.includes@), sources(self.exclude@), path)
    }

    /// Whether `rel_path` (relative to the subject root, `/`-separated) is
    /// in scope.
    pub fn matches(&self, rel_path: &str) -> (b: bool)
        ensures
            b == self.spec_matches(rel_path@),
    {
        let opts = glob_opts();
        if !any_glob_matches(&self.includes, rel_path, opts) {
            return false;
        }
        !any_glob_matches(&self.exclude, rel_path, opts)
    }
}

/// Whether some glob of `gs` matches `path` (scanning stops at the first).
fn any_glob_matches(gs: &Vec<Glob>, path: &str, opts: GlobOptions) -> (b: bool)
    requires
        opts.case_sensitive,
        opts.require_literal_separator,
        !opts.require_literal_leading_dot,
    ensures
        b == any_matches(sources(gs@), path@),
{
    let mut i: usize = 0;
    while i < gs.len()
        invariant
            i <= gs.len(),
            opts.case_sensitive && opts.require_literal_separator
                && !opts.require_literal_leading_dot,
            forall|k: int| 0 <= k < i ==> !pattern_matches(#[trigger] sources(gs@)[k], path@),
        decreases gs.len() - i,
    {
        proof {
            assert(sources(gs@)[i as int] == gs@[i as int].source());
        }
        if globs::matches(&gs[i], path, opts) {
            return true;
        }
        i = i + 1;
    }
    false
}

fn clone_strings(v: &Vec<String>) -> (out: Vec<String>)
    ensures
        views(out@) == views(v@),
{
    let mut out: Vec<String> = Vec::new();
    let mut i: usize = 0;
    while i < v.len()
        invariant
            i <= v.len(),
            views(out@) == views(v@).subrange(0, i as int),
        decreases v.len() - i,
    {
        let ghost before = views(out@);
        out.push(v[i].clone());
        proof {
            assert(views(out@) =~= before.push(v@[i as int]@));
            assert(views(v@).subrange(0, i + 1) =~= views(v@).subrange(0, i as int).push(
                v@[i as int]@,
            ));
        }
        i = i + 1;
    }
    proof {
        assert(views(v@).subrange(0, i as int) =~= views(v@));
    }
    out
}

fn one_pattern(p: &str) -> (out: Vec<String>)
    ensures
        views(out@) == seq![p@],
{
    let mut out: Vec<String> = Vec::new();
    out.push(owned(p));
    proof {
        assert(views(out@) =~= seq![p@]);
    }
    out
}

/// The `--scope` override as plain text.
pub open spec fn override_view(o: Option<&str>) -> Option<Seq<char>> {
    match o {
        Some(s) => Some(s@),
        None => None,
    }
}

/// Builds the compiled scope for `spec`, with `scope_override` (from
/// `--scope`) replacing its include list but not its exclude list. The first
/// include pattern that does not compile is reported, else the first
/// exclude pattern.
pub fn effective_scope(spec: &Spec, scope_override: Option<&str>) -> (r: Result<CompiledScope, EvidenceError>)
    ensures
        ({
            let (inc, exc) = scope_patterns(spec.meta@, override_view(scope_override));
            if first_invalid(inc) >= 0 {
                r matches Err(EvidenceError::InvalidGlob { list, pattern, detail }) && list
                    == PatternList::Includes && pattern@ == inc[first_invalid(inc)]
                    && glob_pattern_new(pattern@) == Err::<(), Seq<char>>(detail@)
            } else if first_invalid(exc) >= 0 {
                r matches Err(EvidenceError::InvalidGlob { list, pattern, detail }) && list
                    == PatternList::Excludes && pattern@ == exc[first_invalid(exc)]
                    && glob_pattern_new(pattern@) == Err::<(), Seq<char>>(detail@)
            } else {
                r matches Ok(cs) && sources(cs.includes@) == inc && sources(cs.exclude@) == exc
            }
        }),
        r matches Ok(cs) ==> match spec.meta.default_scope {
            Some(sc) => sources(cs.exclude@) == views(sc.exclude@),
            None => sources(cs.exclude@) == Seq::<Seq<char>>::empty(),
        },
        r matches Ok(cs) ==> match scope_override {
            Some(o) => sources(cs.includes@) == seq![o@],
            None => match spec.meta.default_scope {
                Some(sc) => if sc.includes.len() > 0 {
                    sources(cs.includes@) == views(sc.includes@)
                } else {
                    sources(cs.includes@) == seq!["**/*"@]
                },
                None => sources(cs.includes@) == seq!["**/*"@],
            },
        },
{
    let (include_patterns, exclude_patterns) = match scope_override {
        Some(over) => match &spec.meta.default_scope {
            Some(scope) => (one_pattern(over), clone_strings(&scope.exclude)),
            None => {
                let none: Vec<String> = Vec::new();
                proof {
                    assert(views(none@) =~= Seq::<Seq<char>>::empty());
                }
                (one_pattern(over), none)
            },
        },
        None => match &spec.meta.default_scope {
            Some(scope) => {
                let inc = if scope.includes.len() == 0 {
                    one_pattern("**/*")
                } else {
                    clone_strings(&scope.includes)
                };
                (inc, clone_strings(&scope.exclude))
            },
            None => {
                let none: Vec<String> = Vec::new();
                proof {
                    assert(views(none@) =~= Seq::<Seq<char>>::empty());
                }
                (one_pattern("**/*"), none)
            },
        },
    };
    let includes = match compile_globs(&include_patterns) {
        Ok(gs) => gs,
        Err((pattern, detail)) => {
            return Err(EvidenceError::InvalidGlob { list: PatternList::Includes, pattern, detail });
        },
    };
    let exclude = match compile_globs(&exclude_patterns) {
        Ok(gs) => gs,
        Err((pattern, detail)) => {
            return Err(EvidenceError::InvalidGlob { list: PatternList::Excludes, pattern, detail });
        },
    };
    Ok(CompiledScope { includes, exclude })
}

// ---------------------------------------------------------------------------
// Paths relative to the subject root
// ---------------------------------------------------------------------------
/// A component of a relative path: a normal name (valid UTF-8), or
/// anything else (`.`, `..`, a root or prefix, or a name that is not UTF-8).
pub enum PathPart {
    Normal(String),
    Other,
}

/// The normal names among the first `n` components.
pub open spec fn normal_names(ps: Seq<PathPart>, n: int) -> Seq<Seq<char>>
    decreases n,
{
    if n <= 0 {
        Seq::empty()
    } else {
        let prev = normal_names(ps, n - 1);
        match ps[n - 1] {
            PathPart::Normal(s) => prev.push(s@),
            PathPart::Other => prev,
        }
    }
}

/// Names joined with `/`.
pub open spec fn slash_joined(ss: Seq<Seq<char>>) -> Seq<char>
    decreases ss.len(),
{
    if ss.len() == 0 {
        Seq::empty()
    } else if ss.len() == 1 {
        ss[0]
    } else {
        slash_joined(ss.drop_last()) + "/"@ + ss.last()
    }
}

/// The normal components of a path joined with `/`, the form in which
/// evidence paths are matched and reported.
pub open spec fn normalized(ps: Seq<PathPart>) -> Seq<char> {
    slash_joined(normal_names(ps, ps.len() as int))
}

/// A relative path as `/`-separated text, keeping only normal components.
pub fn normalize(parts: &Vec<PathPart>) -> (s: String)
    ensures
        s@ == normalized(parts@),
{
    let mut out = String::new();
    let ghost mut names: Seq<Seq<char>> = Seq::empty();
    let mut first = true;
    let mut i: usize = 0;
    while i < parts.len()
        invariant
            i <= parts.len(),
            first == (names.len() == 0),
            names == normal_names(parts@, i as int),
            out@ == slash_joined(names),
        decreases parts.len() - i,
    {
        match &parts[i] {
            PathPart::Normal(name) => {
                let ghost prev = names;
                if !first {
                    out.append("/");
                }
                out.append(name.as_str());
                first = false;
                proof {
                    names = prev.push(name@);
                    assert(names.drop_last() =~= prev);
                    if prev.len() == 0 {
                        assert(out@ =~= name@);
                    }
                }
            },
            PathPart::Other => {},
        }
        i = i + 1;
    }
    out
}

// ---------------------------------------------------------------------------
// Gathering
// ---------------------------------------------------------------------------
/// A gathered file.
#[derive(Clone, Debug)]
pub struct EvidenceFile {
    /// Path relative to the subject root, `/`-separated.
    pub path: String,
    pub content: String,
}

/// A batch of gathered files.
#[derive(Clone, Debug)]
pub struct EvidenceChunk {
    pub files: Vec<EvidenceFile>,
}

/// What was skipped while gathering.
#[derive(Clone, Debug)]
pub struct GatherStats {
    pub skipped_too_large: u32,
    pub skipped_binary: u32,
    pub skipped_walk_error: u32,
    /// The first few walk-error messages, so that there is something to act on.
    pub walk_error_samples: Vec<String>,
}

/// The evidence gathered for one spec.
#[derive(Clone, Debug)]
pub struct GatherResult {
    pub chunks: Vec<EvidenceChunk>,
    pub stats: GatherStats,
}

/// One entry of the walk, as far as gathering looked at it: whether it is a
/// regular file, its path relative to the root (`None` when it is not under
/// the root), its size in bytes (`None` when it was not asked for or could
/// not be read) and its text (`None` when it was not asked for or is not
/// UTF-8).
pub struct WalkEntry {
    pub is_file: bool,
    pub path: Option<Seq<char>>,
    pub size: Option<u64>,
    pub text: Option<Seq<char>>,
}

/// What the walk of a subject's tree yields, one item at a time.
pub enum WalkEvent {
    /// An entry could not be read; the walk's message.
    Error(Seq<char>),
    /// An entry.
    Entry(WalkEntry),
}

/// What becomes of an entry of the walk.
pub enum Fate {
    /// Not a regular file, not under the root, or out of scope.
    Passed,
    /// In scope, but its size could not be read.
    Unreadable,
    /// In scope, but larger than `MAX_FILE_BYTES`.
    TooLarge,
    /// In scope and small enough, but not UTF-8 text.
    Binary,
    /// Gathered: its path and text.
    Gathered(Seq<char>, Seq<char>),
}

/// The fate of an entry under the include and exclude patterns.
pub open spec fn fate(inc: Seq<Seq<char>>, exc: Seq<Seq<char>>, e: WalkEntry) -> Fate {
    if e.is_file && e.path is Some && in_scope(inc, exc, e.path->0) {
        match e.size {
            None => Fate::Unreadable,
            Some(n) => if n > MAX_FILE_BYTES {
                Fate::TooLarge
            } else {
                match e.text {
                    None => Fate::Binary,
                    Some(t) => Fate::Gathered(e.path->0, t),
                }
            },
        }
    } else {
        Fate::Passed
    }
}

/// What a walk comes to: the gathered files (path, text) in walk order, how
/// many in-scope files were too large, binary or unreadable, how many
/// entries the walk could not read, and the first of those messages.
pub struct WalkSummary {
    pub files: Seq<(Seq<char>, Seq<char>)>,
    pub too_large: nat,
    pub binary: nat,
    pub unreadable: nat,
    pub errors: nat,
    pub samples: Seq<Seq<char>>,
}

/// The summary of a walk that has yielded nothing yet.
pub open spec fn empty_summary() -> WalkSummary {
    WalkSummary {
        files: Seq::empty(),
        too_large: 0,
        binary: 0,
        unreadable: 0,
        errors: 0,
        samples: Seq::empty(),
    }
}

/// The summary after one more item of the walk.
pub open spec fn summary_step(s: WalkSummary, inc: Seq<Seq<char>>, exc: Seq<Seq<char>>, ev: WalkEvent) -> WalkSummary {
    match ev {
        WalkEvent::Error(m) => WalkSummary {
            errors: s.errors + 1,
            samples: if s.samples.len() < WALK_ERROR_SAMPLE_CAP {
                s.samples.push(m)
            } else {
                s.samples
            },
            ..s
        },
        WalkEvent::Entry(e) => match fate(inc, exc, e) {
            Fate::Passed => s,
            Fate::Unreadable => WalkSummary { unreadable: s.unreadable + 1, ..s },
            Fate::TooLarge => WalkSummary { too_large: s.too_large + 1, ..s },
            Fate::Binary => WalkSummary { binary: s.binary + 1, ..s },
            Fate::Gathered(p, t) => WalkSummary { files: s.files.push((p, t)), ..s },
        },
    }
}

/// The summary of a whole walk.
pub open spec fn walk_summary(inc: Seq<Seq<char>>, exc: Seq<Seq<char>>, h: Seq<WalkEvent>) -> WalkSummary
    decreases h.len(),
{
    if h.len() == 0 {
        empty_summary()
    } else {
        summary_step(walk_summary(inc, exc, h.drop_last()), inc, exc, h.last())
    }
}

proof fn lemma_summary_push(inc: Seq<Seq<char>>, exc: Seq<Seq<char>>, h: Seq<WalkEvent>, ev: WalkEvent)
    ensures
        walk_summary(inc, exc, h.push(ev)) == summary_step(walk_summary(inc, exc, h), inc, exc, ev),
{
    assert(h.push(ev).drop_last() =~= h);
}

/// The item at `j` of a walk is an entry whose fate is to be gathered as
/// `(p, t)`.
pub open spec fn gathered_at(inc: Seq<Seq<char>>, exc: Seq<Seq<char>>, h: Seq<WalkEvent>, j: int, p: Seq<char>, t: Seq<char>) -> bool {
    &&& 0 <= j < h.len()
    &&& h[j] is Entry
    &&& fate(inc, exc, h[j]->Entry_0) == Fate::Gathered(p, t)
}

/// Some entry of the walk is gathered as `f` (path, text).
pub open spec fn has_source(inc: Seq<Seq<char>>, exc: Seq<Seq<char>>, h: Seq<WalkEvent>, f: (Seq<char>, Seq<char>)) -> bool {
    exists|j: int| gathered_at(inc, exc, h, j, f.0, f.1)
}

/// A walk gathers exactly its entries that are regular files under the
/// root, in scope, at most `MAX_FILE_BYTES` and UTF-8 text, in walk order:
/// every gathered (path, text) is such an entry, and every such entry is
/// gathered.
pub proof fn lemma_walk_gathers_exactly(inc: Seq<Seq<char>>, exc: Seq<Seq<char>>, h: Seq<WalkEvent>)
    ensures
        forall|i: int|
            0 <= i < walk_summary(inc, exc, h).files.len() ==> has_source(
                inc,
                exc,
                h,
                #[trigger] walk_summary(inc, exc, h).files[i],
            ),
        forall|j: int, p: Seq<char>, t: Seq<char>|
            #[trigger] gathered_at(inc, exc, h, j, p, t) ==> walk_summary(inc, exc, h).files.contains(
                (p, t),
            ),
    decreases h.len(),
{
    if h.len() > 0 {
        let g = h.drop_last();
        lemma_walk_gathers_exactly(inc, exc, g);
        let prev = walk_summary(inc, exc, g).files;
        let cur = walk_summary(inc, exc, h).files;
        assert forall|i: int| 0 <= i < cur.len() implies has_source(inc, exc, h, #[trigger] cur[i]) by {
            if i < prev.len() {
                assert(cur[i] == prev[i]);
                assert(has_source(inc, exc, g, prev[i]));
                let j = choose|j: int| gathered_at(inc, exc, g, j, prev[i].0, prev[i].1);
                assert(h[j] == g[j]);
                assert(gathered_at(inc, exc, h, j, cur[i].0, cur[i].1));
            } else {
                assert(gathered_at(inc, exc, h, h.len() - 1, cur[i].0, cur[i].1));
            }
        }
        assert forall|j: int, p: Seq<char>, t: Seq<char>|
            #[trigger] gathered_at(inc, exc, h, j, p, t) implies cur.contains((p, t)) by {
            if j < h.len() - 1 {
                assert(h[j] == g[j]);
                assert(gathered_at(inc, exc, g, j, p, t));
                let k = choose|k: int| 0 <= k < prev.len() && prev[k] == (p, t);
                assert(cur[k] == prev[k]);
            } else {
                assert(cur[cur.len() - 1] == (p, t));
            }
        }
    } else {
        assert(walk_summary(inc, exc, h).files.len() == 0);
    }
}

/// Where the walk yields each path at most once, the gathered paths are
/// distinct.
pub proof fn lemma_walk_paths_distinct(inc: Seq<Seq<char>>, exc: Seq<Seq<char>>, h: Seq<WalkEvent>)
    requires
        forall|j: int, k: int|
            0 <= j < k < h.len() && (#[trigger] h[j]) is Entry && (#[trigger] h[k]) is Entry
                && h[j]->Entry_0.path is Some ==> h[j]->Entry_0.path != h[k]->Entry_0.path,
    ensures
        forall|a: int, b: int|
            0 <= a < b < walk_summary(inc, exc, h).files.len() ==> (#[trigger] walk_summary(
                inc,
                exc,
                h,
            ).files[a]).0 != (#[trigger] walk_summary(inc, exc, h).files[b]).0,
    decreases h.len(),
{
    if h.len() > 0 {
        let g = h.drop_last();
        assert forall|j: int, k: int|
            0 <= j < k < g.len() && (#[trigger] g[j]) is Entry && (#[trigger] g[k]) is Entry
                && g[j]->Entry_0.path is Some implies g[j]->Entry_0.path != g[k]->Entry_0.path by {
            assert(h[j] == g[j] && h[k] == g[k]);
        }
        lemma_walk_paths_distinct(inc, exc, g);
        lemma_walk_gathers_exactly(inc, exc, g);
        let prev = walk_summary(inc, exc, g).files;
        let cur = walk_summary(inc, exc, h).files;
        if cur.len() > prev.len() {
            let last = h[h.len() - 1];
            assert forall|a: int, b: int| 0 <= a < b < cur.len() implies (#[trigger] cur[a]).0
                != (#[trigger] cur[b]).0 by {
                if b == cur.len() - 1 {
                    assert(cur[a] == prev[a]);
                    assert(has_source(inc, exc, g, prev[a]));
                    let j = choose|j: int| gathered_at(inc, exc, g, j, prev[a].0, prev[a].1);
                    assert(h[j] == g[j]);
                    assert(h[j]->Entry_0.path == Some(prev[a].0));
                    assert(last->Entry_0.path == Some(cur[b].0));
                } else {
                    assert(cur[a] == prev[a] && cur[b] == prev[b]);
                }
            }
        } else {
            assert(cur == prev);
        }
    }
}

/// A relative path as matched and reported, if there is one.
pub open spec fn normalized_opt(rel: Option<Vec<PathPart>>) -> Option<Seq<char>> {
    match rel {
        Some(ps) => Some(normalized(ps@)),
        None => None,
    }
}

/// A file's text, if it has one.
pub open spec fn text_opt(content: Option<String>) -> Option<Seq<char>> {
    match content {
        Some(c) => Some(c@),
        None => None,
    }
}

/// The gathered files as (path, text).
pub open spec fn files_view(fs: Seq<EvidenceFile>) -> Seq<(Seq<char>, Seq<char>)> {
    fs.map_values(|f: EvidenceFile| (f.path@, f.content@))
}

/// Where the walk stands with the current entry.
pub enum Pending {
    /// No entry under consideration.
    Idle,
    /// An in-scope file, at this relative path; its size is needed next.
    Admitted(String),
    /// A file in scope and within the size limit; its content is needed next.
    Sized(String),
}

/// The state of gathering over a walk of the subject's tree.
pub struct Gatherer {
    pub root: String,
    pub scope: CompiledScope,
    pub files: Vec<EvidenceFile>,
    pub stats: GatherStats,
    pub pending: Pending,
    /// How many files have been taken up (found in scope) so far.
    pub admitted: Ghost<nat>,
    /// How many of those had metadata that could not be read.
    pub unreadable: Ghost<nat>,
    /// Every item of the walk handled so far (the pending entry aside).
    pub history: Ghost<Seq<WalkEvent>>,
    /// The size of the pending entry, once known.
    pub pending_size: Ghost<u64>,
}

impl Gatherer {
    /// Every file taken up is accounted for: gathered, counted as too
    /// large, as binary or as unreadable, or still pending.
    pub open spec fn accounted(&self) -> bool {
        &&& self.admitted@ == self.files.len() + self.stats.skipped_too_large
            + self.stats.skipped_binary + self.unreadable@ + (if self.pending is Idle {
            0int
        } else {
            1int
        })
        &&& self.unreadable@ <= self.stats.skipped_walk_error
    }

    /// What the walk handled so far comes to.
    pub open spec fn summary(&self) -> WalkSummary {
        walk_summary(sources(self.scope.includes@), sources(self.scope.exclude@), self.history@)
    }

    /// The gathered files and the counts are those of the walk so far.
    pub open spec fn follows_walk(&self) -> bool {
        let s = self.summary();
        &&& files_view(self.files@) == s.files
        &&& self.stats.skipped_too_large == s.too_large
        &&& self.stats.skipped_binary == s.binary
        &&& self.stats.skipped_walk_error == s.errors + s.unreadable
        &&& views(self.stats.walk_error_samples@) == s.samples
        &&& self.unreadable@ == s.unreadable
        &&& self.pending is Sized ==> self.pending_size@ <= MAX_FILE_BYTES
    }

    /// Every gathered (or pending) file is in scope, every file taken up is
    /// accounted for, the walk-error sample is within its cap, and what was
    /// gathered and counted is what the walk so far comes to.
    pub open spec fn wf(&self) -> bool {
        &&& self.accounted()
        &&& self.follows_walk()
        &&& forall|i: int|
            0 <= i < self.files.len() ==> self.scope.spec_matches(
                (#[trigger] self.files@[i]).path@,
            )
        &&& self.stats.walk_error_samples.len() <= WALK_ERROR_SAMPLE_CAP
        &&& match self.pending {
            Pending::Idle => true,
            Pending::Admitted(p) => self.scope.spec_matches(p@),
            Pending::Sized(p) => self.scope.spec_matches(p@),
        }
    }

    /// Starts gathering under `subject`'s root for `spec`, with the scope
    /// of [`effective_scope`]. A `Text` subject has no tree to walk.
    pub fn new(subject: &Subject, spec: &Spec, scope_override: Option<&str>) -> (r: Result<
        Gatherer,
        EvidenceError,
    >)
        requires
            !(subject is Text),
        ensures
            ({
                let (inc, exc) = scope_patterns(spec.meta@, override_view(scope_override));
                if first_invalid(inc) >= 0 {
                    r matches Err(EvidenceError::InvalidGlob { list, pattern, detail }) && list
                        == PatternList::Includes && pattern@ == inc[first_invalid(inc)]
                        && glob_pattern_new(pattern@) == Err::<(), Seq<char>>(detail@)
                } else if first_invalid(exc) >= 0 {
                    r matches Err(EvidenceError::InvalidGlob { list, pattern, detail }) && list
                        == PatternList::Excludes && pattern@ == exc[first_invalid(exc)]
                        && glob_pattern_new(pattern@) == Err::<(), Seq<char>>(detail@)
                } else {
                    r matches Ok(g) && g.wf() && g.root@ == subject.spec_root() && sources(
                        g.scope.includes@,
                    ) == inc && sources(g.scope.exclude@) == exc && g.files.len() == 0
                        && g.stats.skipped_too_large == 0 && g.stats.skipped_binary == 0
                        && g.stats.skipped_walk_error == 0 && g.stats.walk_error_samples.len()
                        == 0 && g.pending is Idle && g.history@.len() == 0
                }
            }),
    {
        let root = subject.root().clone();
        let scope = effective_scope(spec, scope_override)?;
        let files: Vec<EvidenceFile> = Vec::new();
        let samples: Vec<String> = Vec::new();
        proof {
            assert(files_view(files@) =~= Seq::empty());
            assert(views(samples@) =~= Seq::empty());
        }
        Ok(
            Gatherer {
                root,
                scope,
                files,
                stats: GatherStats {
                    skipped_too_large: 0,
                    skipped_binary: 0,
                    skipped_walk_error: 0,
                    walk_error_samples: samples,
                },
                pending: Pending::Idle,
                admitted: Ghost(0),
                unreadable: Ghost(0),
                history: Ghost(Seq::empty()),
                pending_size: Ghost(0),
            },
        )
    }

    /// The walk could not read an entry: count it, and keep its message if
    /// the sample is not full yet.
    pub fn walk_error(&mut self, message: String)
        requires
            old(self).wf(),
            old(self).pending is Idle,
            old(self).stats.skipped_walk_error < u32::MAX,
        ensures
            final(self).wf(),
            final(self).stats.skipped_walk_error == old(self).stats.skipped_walk_error + 1,
            final(self).stats.walk_error_samples@ == if old(self).stats.walk_error_samples.len()
                < WALK_ERROR_SAMPLE_CAP {
                old(self).stats.walk_error_samples@.push(message)
            } else {
                old(self).stats.walk_error_samples@
            },
            final(self).stats.skipped_too_large == old(self).stats.skipped_too_large,
            final(self).stats.skipped_binary == old(self).stats.skipped_binary,
            final(self).files@ == old(self).files@,
            final(self).scope == old(self).scope,
            final(self).root == old(self).root,
            final(self).pending is Idle,
            final(self).admitted == old(self).admitted,
            final(self).unreadable == old(self).unreadable,
            final(self).history@ == old(self).history@.push(WalkEvent::Error(message@)),
    {
        proof {
            lemma_summary_push(
                sources(self.scope.includes@),
                sources(self.scope.exclude@),
                self.history@,
                WalkEvent::Error(message@),
            );
        }
        let ghost m = message@;
        self.stats.skipped_walk_error = self.stats.skipped_walk_error + 1;
        if self.stats.walk_error_samples.len() < WALK_ERROR_SAMPLE_CAP {
            let ghost before = self.stats.walk_error_samples@;
            self.stats.walk_error_samples.push(message);
            proof {
                assert(views(self.stats.walk_error_samples@) =~= views(before).push(m));
            }
        }
        self.pending = Pending::Idle;
        self.history = Ghost(self.history@.push(WalkEvent::Error(m)));
    }

    /// Considers an entry of the walk: a regular file whose path relative to
    /// the root is known (`rel`) and in scope is taken up; anything else is
    /// passed over without being counted.
    pub fn consider(&mut self, is_file: bool, rel: Option<Vec<PathPart>>) -> (wanted: bool)
        requires
            old(self).wf(),
            old(self).pending is Idle,
        ensures
            final(self).wf(),
            wanted == (is_file && rel is Some && old(self).scope.spec_matches(
                normalized(rel->0@),
            )),
            wanted ==> (final(self).pending matches Pending::Admitted(p) && p@ == normalized(
                rel->0@,
            )),
            !wanted ==> final(self).pending is Idle,
            final(self).files@ == old(self).files@,
            final(self).stats == old(self).stats,
            final(self).scope == old(self).scope,
            final(self).root == old(self).root,
            final(self).admitted@ == old(self).admitted@ + (if wanted {
                1int
            } else {
                0int
            }),
            final(self).unreadable == old(self).unreadable,
            !wanted ==> final(self).history@ == old(self).history@.push(
                WalkEvent::Entry(
                    WalkEntry { is_file, path: normalized_opt(rel), size: None, text: None },
                ),
            ),
            wanted ==> final(self).history@ == old(self).history@,
    {
        let ghost passed = WalkEvent::Entry(
            WalkEntry { is_file, path: normalized_opt(rel), size: None, text: None },
        );
        proof {
            lemma_summary_push(
                sources(self.scope.includes@),
                sources(self.scope.exclude@),
                self.history@,
                passed,
            );
        }
        if !is_file {
            self.history = Ghost(self.history@.push(passed));
            return false;
        }
        match rel {
            None => {
                self.history = Ghost(self.history@.push(passed));
                false
            },
            Some(parts) => {
                let rel_str = normalize(&parts);
                if !self.scope.matches(rel_str.as_str()) {
                    self.history = Ghost(self.history@.push(passed));
                    return false;
                }
                self.pending = Pending::Admitted(rel_str);
                self.admitted = Ghost(self.admitted@ + 1);
                true
            },
        }
    }

    /// The size of the file taken up, or `None` if its metadata could not
    /// be read (counted as a walk error, without a sample). A file over
    /// `MAX_FILE_BYTES` is counted and dropped; otherwise its content is
    /// wanted next.
    pub fn sized(&mut self, len: Option<u64>) -> (read_it: bool)
        requires
            old(self).wf(),
            old(self).pending is Admitted,
            old(self).stats.skipped_walk_error < u32::MAX,
            old(self).stats.skipped_too_large < u32::MAX,
        ensures
            final(self).wf(),
            read_it == (len matches Some(n) && n <= MAX_FILE_BYTES),
            len is None ==> final(self).stats.skipped_walk_error == old(
                self,
            ).stats.skipped_walk_error + 1,
            len is Some ==> final(self).stats.skipped_walk_error == old(
                self,
            ).stats.skipped_walk_error,
            len matches Some(n) && n > MAX_FILE_BYTES ==> final(self).stats.skipped_too_large == old(
                self,
            ).stats.skipped_too_large + 1,
            !(len matches Some(n) && n > MAX_FILE_BYTES) ==> final(self).stats.skipped_too_large
                == old(self).stats.skipped_too_large,
            read_it ==> (final(self).pending matches Pending::Sized(p) && old(
                self,
            ).pending matches Pending::Admitted(q) && p == q),
            !read_it ==> final(self).pending is Idle,
            final(self).stats.skipped_binary == old(self).stats.skipped_binary,
            final(self).stats.walk_error_samples == old(self).stats.walk_error_samples,
            final(self).files@ == old(self).files@,
            final(self).scope == old(self).scope,
            final(self).root == old(self).root,
            final(self).admitted == old(self).admitted,
            final(self).unreadable@ == old(self).unreadable@ + (if len is None {
                1int
            } else {
                0int
            }),
            !read_it ==> (old(self).pending matches Pending::Admitted(q) && final(self).history@
                == old(self).history@.push(
                WalkEvent::Entry(WalkEntry { is_file: true, path: Some(q@), size: len, text: None }),
            )),
            read_it ==> final(self).history@ == old(self).history@ && final(self).pending_size@
                == len->0,
    {
        let ghost q = self.pending->Admitted_0@;
        let ghost done = WalkEvent::Entry(
            WalkEntry { is_file: true, path: Some(q), size: len, text: None },
        );
        proof {
            lemma_summary_push(
                sources(self.scope.includes@),
                sources(self.scope.exclude@),
                self.history@,
                done,
            );
        }
        let mut taken = Pending::Idle;
        std::mem::swap(&mut taken, &mut self.pending);
        let rel = match taken {
            Pending::Admitted(p) => p,
            Pending::Idle => {
                return false;
            },
            Pending::Sized(p) => p,
        };
        match len {
            None => {
                self.stats.skipped_walk_error = self.stats.skipped_walk_error + 1;
                self.unreadable = Ghost(self.unreadable@ + 1);
                self.history = Ghost(self.history@.push(done));
                false
            },
            Some(n) => {
                if n > MAX_FILE_BYTES {
                    self.stats.skipped_too_large = self.stats.skipped_too_large + 1;
                    self.history = Ghost(self.history@.push(done));
                    false
                } else {
                    self.pending = Pending::Sized(rel);
                    self.pending_size = Ghost(n);
                    true
                }
            },
        }
    }

    /// The content of the sized file as text, or `None` if it is not valid
    /// UTF-8 (counted as binary). Text is gathered under the file's path.
    pub fn read(&mut self, content: Option<String>)
        requires
            old(self).wf(),
            old(self).pending is Sized,
            old(self).stats.skipped_binary < u32::MAX,
        ensures
            final(self).wf(),
            final(self).pending is Idle,
            content is None ==> final(self).files@ == old(self).files@
                && final(self).stats.skipped_binary == old(self).stats.skipped_binary + 1,
            content is Some ==> final(self).stats.skipped_binary == old(self).stats.skipped_binary,
            content matches Some(c) ==> (old(self).pending matches Pending::Sized(p)
                && final(self).files@ == old(self).files@.push(EvidenceFile { path: p, content: c })),
            final(self).stats.skipped_too_large == old(self).stats.skipped_too_large,
            final(self).stats.skipped_walk_error == old(self).stats.skipped_walk_error,
            final(self).stats.walk_error_samples == old(self).stats.walk_error_samples,
            final(self).scope == old(self).scope,
            final(self).root == old(self).root,
            final(self).admitted == old(self).admitted,
            final(self).unreadable == old(self).unreadable,
            old(self).pending matches Pending::Sized(q) && final(self).history@ == old(
                self,
            ).history@.push(
                WalkEvent::Entry(
                    WalkEntry {
                        is_file: true,
                        path: Some(q@),
                        size: Some(old(self).pending_size@),
                        text: text_opt(content),
                    },
                ),
            ),
    {
        let ghost q = self.pending->Sized_0@;
        let ghost done = WalkEvent::Entry(
            WalkEntry {
                is_file: true,
                path: Some(q),
                size: Some(self.pending_size@),
                text: text_opt(content),
            },
        );
        proof {
            lemma_summary_push(
                sources(self.scope.includes@),
                sources(self.scope.exclude@),
                self.history@,
                done,
            );
        }
        let mut taken = Pending::Idle;
        std::mem::swap(&mut taken, &mut self.pending);
        let rel = match taken {
            Pending::Sized(p) => p,
            Pending::Idle => {
                return;
            },
            Pending::Admitted(p) => p,
        };
        match content {
            None => {
                self.stats.skipped_binary = self.stats.skipped_binary + 1;
            },
            Some(c) => {
                let ghost before = self.files@;
                self.files.push(EvidenceFile { path: rel, content: c });
                proof {
                    assert(files_view(self.files@) =~= files_view(before).push((q, c@)));
                }
            },
        }
        self.history = Ghost(self.history@.push(done));
    }

    /// Ends the walk: everything gathered, as one chunk, with the skip
    /// counts; gathering nothing is an error naming the root. Every file
    /// taken up is either in the chunk or counted as skipped (too large,
    /// binary, or unreadable metadata, which also counts as a walk error).
    pub fn finish(self) -> (r: Result<GatherResult, EvidenceError>)
        requires
            self.wf(),
            self.pending is Idle,
        ensures
            r matches Ok(res) ==> self.admitted@ == res.chunks@[0].files.len()
                + res.stats.skipped_too_large + res.stats.skipped_binary + self.unreadable@
                && self.unreadable@ <= res.stats.skipped_walk_error,
            self.files.len() == 0 ==> (r matches Err(EvidenceError::NoFilesMatched { root })
                && root == self.root),
            self.files.len() > 0 ==> (r matches Ok(res) && res.chunks.len() == 1
                && res.chunks@[0].files@ == self.files@ && res.stats == self.stats),
            r matches Ok(res) ==> forall|i: int|
                0 <= i < res.chunks@[0].files.len() ==> self.scope.spec_matches(
                    (#[trigger] res.chunks@[0].files@[i]).path@,
                ),
            self.summary().files.len() == 0 ==> r is Err,
            r matches Ok(res) ==> ({
                let s = self.summary();
                &&& files_view(res.chunks@[0].files@) == s.files
                &&& res.stats.skipped_too_large == s.too_large
                &&& res.stats.skipped_binary == s.binary
                &&& res.stats.skipped_walk_error == s.errors + s.unreadable
                &&& views(res.stats.walk_error_samples@) == s.samples
            }),
    {
        if self.files.len() == 0 {
            return Err(EvidenceError::NoFilesMatched { root: self.root });
        }
        let mut chunks: Vec<EvidenceChunk> = Vec::new();
        chunks.push(EvidenceChunk { files: self.files });
        Ok(GatherResult { chunks, stats: self.stats })
    }
}

} // verus!
