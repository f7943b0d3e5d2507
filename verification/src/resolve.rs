//! Resolve `--against` strings into specs.
//!
//! Resolution per comma-separated value:
//! - path-shaped (contains `/` or `.`) and an existing file at
//!   `<repo_root>/<token>` (an absolute token stands for itself): that file, as `AdHoc`;
//! - `<mode>/<name>` (catalog form): the repo-local
//!   `.oaudit/auditors/<mode>/<name>.md` first (`Local`), else the built-in;
//! - a bare name (no slash, no dot): an "ambiguous" error listing the built-ins.
//!
//! The filesystem is consulted through a [`FileView`]: the regular files
//! among the paths this module asks about, with what reading each gave.
use crate::builtins::{self, builtin_bodies, builtin_paths};
use crate::front_matter::gray_matter_yaml;
use crate::spec::{self, header_of, parsed_as, SourceModel, Spec, SpecError, SpecSource};
use crate::strings::{
    chars_of, concat2, concat3, contains_char, find_char, first_index, lemma_first_index,
    lemma_multiset_map, owned, sort_by_key, sorted_by_key, split_on, split_str, str_eq, string_of,
    trim, trim_end, trim_end_str, trim_str, views,
};
use vstd::prelude::*;

verus! {

// ---------------------------------------------------------------------------
// Token shapes
// ---------------------------------------------------------------------------
/// A token that looks like a path: it contains `/` or `.`.
pub open spec fn path_shaped(t: Seq<char>) -> bool {
    t.contains('/') || t.contains('.')
}

/// The modes that a catalog path may start with.
pub open spec fn known_mode(m: Seq<char>) -> bool {
    m == "trusted"@ || m == "untrusted"@
}

/// `<mode>/<name>` with a known mode and a non-empty name without `/` or `.`.
pub open spec fn catalog_shaped(t: Seq<char>) -> bool {
    let i = first_index(t, '/');
    &&& i >= 0
    &&& known_mode(t.subrange(0, i))
    &&& t.len() > i + 1
    &&& !t.subrange(i + 1, t.len() as int).contains('/')
    &&& !t.subrange(i + 1, t.len() as int).contains('.')
}

/// Whether `token` is path-shaped.
pub fn is_path_shaped(token: &str) -> (b: bool)
    ensures
        b == path_shaped(token@),
{
    contains_char(token, '/') || contains_char(token, '.')
}

/// The modes a catalog path may name, in the order their directories are listed.
pub fn known_modes() -> (m: Vec<&'static str>)
    ensures
        m.len() == 2,
        m@[0]@ == "trusted"@,
        m@[1]@ == "untrusted"@,
{
    let mut m: Vec<&'static str> = Vec::new();
    m.push("trusted");
    m.push("untrusted");
    m
}

fn is_known_mode(m: &str) -> (b: bool)
    ensures
        b == known_mode(m@),
{
    str_eq(m, "trusted") || str_eq(m, "untrusted")
}

/// Whether `token` has the catalog form `<mode>/<name>`.
pub fn looks_like_catalog(token: &str) -> (b: bool)
    ensures
        b == catalog_shaped(token@),
{
    let cs = chars_of(token);
    match find_char(&cs, '/') {
        None => false,
        Some(i) => {
            if i + 1 >= cs.len() {
                return false;
            }
            let mode = string_of(&cs, 0, i);
            let name = string_of(&cs, i + 1, cs.len());
            !contains_char(name.as_str(), '/') && !contains_char(name.as_str(), '.')
                && is_known_mode(mode.as_str())
        },
    }
}

/// A catalog path is always path-shaped (it holds a `/`).
pub proof fn lemma_catalog_is_path_shaped(t: Seq<char>)
    requires
        catalog_shaped(t),
    ensures
        path_shaped(t),
{
    lemma_first_index(t, '/');
    assert(t[first_index(t, '/')] == '/');
}

// ---------------------------------------------------------------------------
// Paths
// ---------------------------------------------------------------------------
/// `a` joined with `b` as `PathBuf::push` does: an absolute `b` replaces
/// `a`; otherwise a `/` goes between them unless `a` is empty or already
/// ends with one.
pub open spec fn join_path(a: Seq<char>, b: Seq<char>) -> Seq<char> {
    if b.len() > 0 && b[0] == '/' {
        b
    } else if a.len() == 0 || a.last() == '/' {
        a + b
    } else {
        a + seq!['/'] + b
    }
}

/// Joins two path strings.
pub fn join(a: &str, b: &str) -> (out: String)
    ensures
        out@ == join_path(a@, b@),
{
    let x = chars_of(a);
    let y = chars_of(b);
    if y.len() > 0 && y[0] == '/' {
        return owned(b);
    }
    if x.len() == 0 || x[x.len() - 1] == '/' {
        concat2(a, b)
    } else {
        let out = concat3(a, "/", b);
        proof {
            reveal_strlit("/");
            assert(out@ =~= a@ + seq!['/'] + b@);
        }
        out
    }
}

/// Where an ad-hoc spec file is looked for: the token as a path under the
/// repo root (an absolute token stands for itself).
pub open spec fn adhoc_path(root: Seq<char>, token: Seq<char>) -> Seq<char> {
    join_path(root, token)
}

/// Where a repo keeps its local spec for a catalog path:
/// `<repo_root>/.oaudit/auditors/<token>.md`.
pub open spec fn local_spec_path(root: Seq<char>, token: Seq<char>) -> Seq<char> {
    join_path(join_path(join_path(root, ".oaudit"@), "auditors"@), token + ".md"@)
}

/// The local spec path for `token` under `repo_root`.
pub fn local_catalog_path(repo_root: &str, token: &str) -> (p: String)
    ensures
        p@ == local_spec_path(repo_root@, token@),
{
    let a = join(repo_root, ".oaudit");
    let b = join(a.as_str(), "auditors");
    let leaf = concat2(token, ".md");
    join(b.as_str(), leaf.as_str())
}

// ---------------------------------------------------------------------------
// The `--against` list
// ---------------------------------------------------------------------------
/// The trimmed, non-empty pieces among the first `n` of `pieces`.
pub open spec fn tokens_of(pieces: Seq<Seq<char>>, n: int) -> Seq<Seq<char>>
    decreases n,
{
    if n <= 0 {
        Seq::empty()
    } else {
        let prev = tokens_of(pieces, n - 1);
        let t = trim(pieces[n - 1]);
        if t.len() > 0 {
            prev.push(t)
        } else {
            prev
        }
    }
}

/// The spec tokens of an `--against` value: comma-separated, trimmed, empty
/// ones skipped.
pub open spec fn against_tokens(against: Seq<char>) -> Seq<Seq<char>> {
    let pieces = split_on(against, ',');
    tokens_of(pieces, pieces.len() as int)
}

/// Splits an `--against` value into its spec tokens.
pub fn split_against(against: &str) -> (out: Vec<String>)
    ensures
        views(out@) == against_tokens(against@),
{
    let pieces = split_str(against, ',');
    let mut out: Vec<String> = Vec::new();
    let mut i: usize = 0;
    proof {
        assert(views(out@) =~= Seq::<Seq<char>>::empty());
    }
    while i < pieces.len()
        invariant
            i <= pieces.len(),
            views(pieces@) == split_on(against@, ','),
            views(out@) == tokens_of(views(pieces@), i as int),
        decreases pieces.len() - i,
    {
        let t = trim_str(pieces[i].as_str());
        let tc = chars_of(t.as_str());
        let ghost before = views(out@);
        proof {
            assert(views(pieces@)[i as int] == pieces@[i as int]@);
        }
        if tc.len() > 0 {
            out.push(t);
            proof {
                assert(views(out@) =~= before.push(t@));
            }
        }
        i = i + 1;
    }
    out
}

// ---------------------------------------------------------------------------
// The built-in index shown in error messages
// ---------------------------------------------------------------------------
/// One line `    <path>\n` per catalog path.
pub open spec fn index_lines(ps: Seq<Seq<char>>) -> Seq<char>
    decreases ps.len(),
{
    if ps.len() == 0 {
        Seq::empty()
    } else {
        index_lines(ps.drop_last()) + "    "@ + ps.last() + "\n"@
    }
}

/// The listing of built-ins shown in error messages.
pub open spec fn builtins_index_text() -> Seq<char> {
    trim_end(index_lines(builtin_paths()))
}

/// Lists the built-in catalog paths, one per indented line.
pub fn builtins_index() -> (s: String)
    ensures
        s@ == builtins_index_text(),
{
    let all = builtins::all();
    let mut lines = String::new();
    let mut i: usize = 0;
    proof {
        assert(builtin_paths().subrange(0, 0) =~= Seq::<Seq<char>>::empty());
    }
    while i < all.len()
        invariant
            i <= all.len(),
            all.len() == builtin_paths().len(),
            forall|k: int|
                0 <= k < all.len() ==> (#[trigger] all@[k]).catalog_path@ == builtin_paths()[k],
            lines@ == index_lines(builtin_paths().subrange(0, i as int)),
        decreases all.len() - i,
    {
        lines.append("    ");
        lines.append(all[i].catalog_path);
        lines.append("\n");
        proof {
            let ps = builtin_paths().subrange(0, i + 1);
            assert(ps.drop_last() =~= builtin_paths().subrange(0, i as int));
        }
        i = i + 1;
    }
    proof {
        assert(builtin_paths().subrange(0, all.len() as int) =~= builtin_paths());
    }
    trim_end_str(lines.as_str())
}

// ---------------------------------------------------------------------------
// Errors
// ---------------------------------------------------------------------------
/// Why `--against` could not be resolved.
#[derive(Clone, Debug)]
pub enum ResolveError {
    /// No non-empty token.
    NoSpecs,
    /// A bare name, neither a path nor a catalog path.
    Ambiguous { token: String },
    /// A catalog path that is neither local nor built in.
    CatalogNotFound { token: String },
    /// A path-shaped token that names no file and no built-in.
    FileNotFound { token: String },
    /// A spec file that could not be read.
    Read { path: String, detail: String },
    /// A spec file that could not be parsed.
    Spec(SpecError),
}

/// The message of a resolution error.
pub open spec fn resolve_error_message(e: ResolveError) -> Seq<char> {
    match e {
        ResolveError::NoSpecs => "--against requires at least one spec"@,
        ResolveError::Ambiguous { token } => "spec `"@ + token@
            + "` is ambiguous: bare names need to be qualified.\n  Use `<mode>/<name>` (e.g. `trusted/security`) or a path to a .md file.\n  Available builtins:\n"@
            + builtins_index_text(),
        ResolveError::CatalogNotFound { token } => "spec `"@ + token@
            + "` not found in repo or built-ins.\n  Available builtins:\n"@ + builtins_index_text(),
        ResolveError::FileNotFound { token } => "spec file `"@ + token@ + "` not found"@,
        ResolveError::Read { path, detail } => "reading spec file "@ + path@ + ": "@ + detail@,
        ResolveError::Spec(e) => spec::spec_error_message(e),
    }
}

impl ResolveError {
    /// The error's message, with its cause after a colon.
    pub fn message(&self) -> (m: String)
        ensures
            m@ == resolve_error_message(*self),
    {
        match self {
            ResolveError::NoSpecs => String::from_str("--against requires at least one spec"),
            ResolveError::Ambiguous { token } => {
                let mut m = String::from_str("spec `");
                m.append(token.as_str());
                m.append(
                    "` is ambiguous: bare names need to be qualified.\n  Use `<mode>/<name>` (e.g. `trusted/security`) or a path to a .md file.\n  Available builtins:\n",
                );
                let idx = builtins_index();
                m.append(idx.as_str());
                m
            },
            ResolveError::CatalogNotFound { token } => {
                let mut m = String::from_str("spec `");
                m.append(token.as_str());
                m.append("` not found in repo or built-ins.\n  Available builtins:\n");
                let idx = builtins_index();
                m.append(idx.as_str());
                m
            },
            ResolveError::FileNotFound { token } => {
                let mut m = String::from_str("spec file `");
                m.append(token.as_str());
                m.append("` not found");
                m
            },
            ResolveError::Read { path, detail } => {
                let mut m = String::from_str("reading spec file ");
                m.append(path.as_str());
                m.append(": ");
                m.append(detail.as_str());
                m
            },
            ResolveError::Spec(e) => e.message(),
        }
    }
}

// ---------------------------------------------------------------------------
// What the filesystem holds
// ---------------------------------------------------------------------------
/// A regular file at `path`, with what reading it as text gave.
pub struct ProbedFile {
    pub path: String,
    pub contents: Result<String, String>,
}

/// The regular files among the paths the resolver asks about. A path not
/// listed is not a regular file.
pub struct FileView {
    pub files: Vec<ProbedFile>,
}

/// The first position of `x` in `s`, or `-1`.
pub open spec fn seq_pos<A>(s: Seq<A>, x: A) -> int
    decreases s.len(),
{
    if s.len() == 0 {
        -1
    } else if s[0] == x {
        0
    } else {
        let r = seq_pos(s.drop_first(), x);
        if r < 0 {
            -1
        } else {
            r + 1
        }
    }
}

/// `seq_pos` finds the first occurrence, or reports that there is none.
pub proof fn lemma_seq_pos<A>(s: Seq<A>, x: A)
    ensures
        -1 <= seq_pos(s, x) < s.len(),
        seq_pos(s, x) >= 0 ==> s[seq_pos(s, x)] == x,
        forall|k: int| 0 <= k < s.len() && (seq_pos(s, x) < 0 || k < seq_pos(s, x)) ==> s[k] != x,
    decreases s.len(),
{
    if s.len() > 0 && s[0] != x {
        lemma_seq_pos(s.drop_first(), x);
        assert forall|k: int| 0 <= k < s.len() && (seq_pos(s, x) < 0 || k < seq_pos(s, x)) implies s[k]
            != x by {
            if k > 0 {
                assert(s[k] == s.drop_first()[k - 1]);
            }
        }
    }
}

/// The paths of the listed files.
pub open spec fn paths_of(fs: Seq<ProbedFile>) -> Seq<Seq<char>> {
    fs.map_values(|f: ProbedFile| f.path@)
}

/// Where `p` is listed, or `-1`.
pub open spec fn file_pos(fs: Seq<ProbedFile>, p: Seq<char>) -> int {
    seq_pos(paths_of(fs), p)
}

/// `p` is a regular file.
pub open spec fn is_file(fs: Seq<ProbedFile>, p: Seq<char>) -> bool {
    file_pos(fs, p) >= 0
}

/// The first listed file at `p`.
pub(crate) fn find_file(files: &Vec<ProbedFile>, p: &str) -> (r: Option<usize>)
    ensures
        match r {
            Some(i) => i as int == file_pos(files@, p@) && i < files.len(),
            None => file_pos(files@, p@) == -1,
        },
{
    proof {
        lemma_seq_pos(paths_of(files@), p@);
    }
    let mut i: usize = 0;
    while i < files.len()
        invariant
            i <= files.len(),
            forall|k: int| 0 <= k < i ==> paths_of(files@)[k] != p@,
            -1 <= file_pos(files@, p@) < files.len(),
            file_pos(files@, p@) >= 0 ==> paths_of(files@)[file_pos(files@, p@)] == p@,
            forall|k: int|
                0 <= k < files.len() && (file_pos(files@, p@) < 0 || k < file_pos(files@, p@))
                    ==> paths_of(files@)[k] != p@,
        decreases files.len() - i,
    {
        proof {
            assert(paths_of(files@)[i as int] == files@[i as int].path@);
        }
        if str_eq(files[i].path.as_str(), p) {
            return Some(i);
        }
        i = i + 1;
    }
    None
}

/// The built-in with catalog path `t`, or `-1`.
pub open spec fn builtin_pos(t: Seq<char>) -> int {
    seq_pos(builtin_paths(), t)
}

/// The position of the built-in named `token`.
fn find_builtin(all: &Vec<builtins::Builtin>, token: &str) -> (r: Option<usize>)
    requires
        all.len() == builtin_paths().len(),
        forall|k: int| 0 <= k < all.len() ==> (#[trigger] all@[k]).catalog_path@ == builtin_paths()[k],
    ensures
        match r {
            Some(i) => i as int == builtin_pos(token@) && i < all.len(),
            None => builtin_pos(token@) == -1,
        },
{
    proof {
        lemma_seq_pos(builtin_paths(), token@);
    }
    let mut i: usize = 0;
    while i < all.len()
        invariant
            i <= all.len(),
            all.len() == builtin_paths().len(),
            forall|k: int| 0 <= k < all.len() ==> (#[trigger] all@[k]).catalog_path@ == builtin_paths()[k],
            forall|k: int| 0 <= k < i ==> builtin_paths()[k] != token@,
            -1 <= builtin_pos(token@) < all.len(),
            builtin_pos(token@) >= 0 ==> builtin_paths()[builtin_pos(token@)] == token@,
            forall|k: int|
                0 <= k < all.len() && (builtin_pos(token@) < 0 || k < builtin_pos(token@))
                    ==> builtin_paths()[k] != token@,
        decreases all.len() - i,
    {
        if str_eq(all[i].catalog_path, token) {
            return Some(i);
        }
        i = i + 1;
    }
    None
}

// ---------------------------------------------------------------------------
// The lookup chain
// ---------------------------------------------------------------------------
/// Where a token's spec comes from, or why there is none.
pub enum Location {
    AdHoc,
    Local,
    Builtin(int),
    Ambiguous,
    CatalogNotFound,
    FileNotFound,
}

/// The lookup chain of `resolve_one`: a path-shaped token names a file if
/// one is there; a catalog path is looked for locally, then among the
/// built-ins; a path-shaped token is also matched against the built-ins; the
/// error depends on whether the token looked like a catalog path.
pub open spec fn locate(token: Seq<char>, root: Seq<char>, fs: Seq<ProbedFile>) -> Location {
    if !path_shaped(token) {
        Location::Ambiguous
    } else if is_file(fs, adhoc_path(root, token)) {
        Location::AdHoc
    } else if catalog_shaped(token) && is_file(fs, local_spec_path(root, token)) {
        Location::Local
    } else if builtin_pos(token) >= 0 {
        Location::Builtin(builtin_pos(token))
    } else if catalog_shaped(token) {
        Location::CatalogNotFound
    } else {
        Location::FileNotFound
    }
}

/// What parsing `text` from `source` may give, as a resolution result.
pub open spec fn resolved_as(text: Seq<char>, source: SourceModel, r: Result<Spec, ResolveError>) -> bool {
    match r {
        Ok(s) => parsed_as(text, source, Ok(s)),
        Err(ResolveError::Spec(e)) => parsed_as(text, source, Err(e)),
        Err(_) => false,
    }
}

/// What loading the listed file at `path` as a spec from `source` may give:
/// its read error, or what parsing its text gives.
pub open spec fn loaded_as(fs: Seq<ProbedFile>, path: Seq<char>, source: SourceModel, r: Result<Spec, ResolveError>) -> bool {
    match fs[file_pos(fs, path)].contents {
        Err(d) => r matches Err(ResolveError::Read { path: p, detail }) && p@ == path && detail@
            == d@,
        Ok(t) => resolved_as(t@, source, r),
    }
}

/// The outcomes `resolve_one` may have for `token`.
pub open spec fn resolves_to(token: Seq<char>, root: Seq<char>, fs: Seq<ProbedFile>, r: Result<Spec, ResolveError>) -> bool {
    match locate(token, root, fs) {
        Location::AdHoc => loaded_as(
            fs,
            adhoc_path(root, token),
            SourceModel::AdHoc(adhoc_path(root, token)),
            r,
        ),
        Location::Local => loaded_as(
            fs,
            local_spec_path(root, token),
            SourceModel::Local(local_spec_path(root, token)),
            r,
        ),
        Location::Builtin(i) => resolved_as(
            builtin_bodies()[i],
            SourceModel::Builtin(builtin_paths()[i]),
            r,
        ),
        Location::Ambiguous => r matches Err(ResolveError::Ambiguous { token: t }) && t@ == token,
        Location::CatalogNotFound => r matches Err(ResolveError::CatalogNotFound { token: t }) && t@
            == token,
        Location::FileNotFound => r matches Err(ResolveError::FileNotFound { token: t }) && t@
            == token,
    }
}

fn load(fs: &FileView, i: usize, source: SpecSource) -> (r: Result<Spec, ResolveError>)
    requires
        i < fs.files.len(),
    ensures
        match fs.files@[i as int].contents {
            Err(d) => r matches Err(ResolveError::Read { path: p, detail }) && p@
                == fs.files@[i as int].path@ && detail@ == d@,
            Ok(t) => resolved_as(t@, source@, r),
        },
{
    match &fs.files[i].contents {
        Err(d) => Err(ResolveError::Read { path: fs.files[i].path.clone(), detail: d.clone() }),
        Ok(t) => match spec::parse(t.as_str(), source) {
            Ok(s) => Ok(s),
            Err(e) => Err(ResolveError::Spec(e)),
        },
    }
}

/// `token` resolves to some spec.
pub open spec fn resolvable(token: Seq<char>, root: Seq<char>, fs: Seq<ProbedFile>) -> bool {
    exists|s: Spec| resolves_to(token, root, fs, Ok(s))
}

/// Resolves one token to a spec, following [`locate`].
pub fn resolve_one(token: &str, repo_root: &str, fs: &FileView) -> (r: Result<Spec, ResolveError>)
    ensures
        resolves_to(token@, repo_root@, fs.files@, r),
{
    proof {
        lemma_seq_pos(paths_of(fs.files@), token@);
    }
    if !is_path_shaped(token) {
        return Err(ResolveError::Ambiguous { token: owned(token) });
    }
    let adhoc = join(repo_root, token);
    if let Some(i) = find_file(&fs.files, adhoc.as_str()) {
        proof {
            lemma_seq_pos(paths_of(fs.files@), adhoc@);
        }
        return load(fs, i, SpecSource::AdHoc(adhoc));
    }
    let catalog = looks_like_catalog(token);
    if catalog {
        let local = local_catalog_path(repo_root, token);
        if let Some(i) = find_file(&fs.files, local.as_str()) {
            proof {
                lemma_seq_pos(paths_of(fs.files@), local@);
            }
            return load(fs, i, SpecSource::Local(local));
        }
    }
    let all = builtins::all();
    if let Some(b) = find_builtin(&all, token) {
        let r = spec::parse(all[b].body, SpecSource::Builtin(owned(all[b].catalog_path)));
        return match r {
            Ok(s) => Ok(s),
            Err(e) => Err(ResolveError::Spec(e)),
        };
    }
    if catalog {
        Err(ResolveError::CatalogNotFound { token: owned(token) })
    } else {
        Err(ResolveError::FileNotFound { token: owned(token) })
    }
}

/// Resolves every token of an `--against` value, in order, stopping at the
/// first that fails; a value with no token at all is refused.
pub fn resolve(against: &str, repo_root: &str, fs: &FileView) -> (r: Result<Vec<Spec>, ResolveError>)
    ensures
        against_tokens(against@).len() == 0 ==> r matches Err(ResolveError::NoSpecs),
        r matches Ok(specs) ==> specs.len() == against_tokens(against@).len() && forall|i: int|
            0 <= i < specs.len() ==> resolves_to(
                against_tokens(against@)[i],
                repo_root@,
                fs.files@,
                Ok(#[trigger] specs@[i]),
            ),
        r matches Err(e) ==> (e is NoSpecs && against_tokens(against@).len() == 0) || exists|k: int|
            0 <= k < against_tokens(against@).len() && resolves_to(
                #[trigger] against_tokens(against@)[k],
                repo_root@,
                fs.files@,
                Err(e),
            ) && forall|j: int|
                0 <= j < k ==> resolvable(#[trigger] against_tokens(against@)[j], repo_root@, fs.files@),
{
    let tokens = split_against(against);
    let mut out: Vec<Spec> = Vec::new();
    let mut i: usize = 0;
    while i < tokens.len()
        invariant
            i <= tokens.len(),
            views(tokens@) == against_tokens(against@),
            out.len() == i,
            forall|k: int|
                0 <= k < i ==> resolves_to(
                    against_tokens(against@)[k],
                    repo_root@,
                    fs.files@,
                    Ok(#[trigger] out@[k]),
                ),
        decreases tokens.len() - i,
    {
        proof {
            assert(views(tokens@)[i as int] == tokens@[i as int]@);
        }
        match resolve_one(tokens[i].as_str(), repo_root, fs) {
            Ok(s) => {
                out.push(s);
            },
            Err(e) => {
                proof {
                    assert forall|j: int| 0 <= j < i implies resolvable(
                        #[trigger] against_tokens(against@)[j],
                        repo_root@,
                        fs.files@,
                    ) by {
                        assert(resolves_to(
                            against_tokens(against@)[j],
                            repo_root@,
                            fs.files@,
                            Ok(out@[j]),
                        ));
                    }
                    assert(resolves_to(
                        against_tokens(against@)[i as int],
                        repo_root@,
                        fs.files@,
                        Err(e),
                    ));
                }
                return Err(e);
            },
        }
        i = i + 1;
    }
    if out.len() == 0 {
        return Err(ResolveError::NoSpecs);
    }
    Ok(out)
}

// ---------------------------------------------------------------------------
// Raw lookup, for display
// ---------------------------------------------------------------------------
/// The lookup chain of `lookup_raw`: as `locate`, except that only catalog
/// paths are looked for locally and among the built-ins.
pub open spec fn lookup_location(token: Seq<char>, root: Seq<char>, fs: Seq<ProbedFile>) -> Location {
    if !path_shaped(token) {
        Location::Ambiguous
    } else if is_file(fs, adhoc_path(root, token)) {
        Location::AdHoc
    } else if catalog_shaped(token) {
        if is_file(fs, local_spec_path(root, token)) {
            Location::Local
        } else if builtin_pos(token) >= 0 {
            Location::Builtin(builtin_pos(token))
        } else {
            Location::CatalogNotFound
        }
    } else {
        Location::FileNotFound
    }
}

/// The text of the listed file at `path`, shown with `label`: its read
/// error, or its text.
pub open spec fn raw_loaded_as(fs: Seq<ProbedFile>, path: Seq<char>, label: Seq<char>, r: Result<(String, String), ResolveError>) -> bool {
    match fs[file_pos(fs, path)].contents {
        Err(d) => r matches Err(ResolveError::Read { path: p, detail }) && p@ == path && detail@
            == d@,
        Ok(t) => r matches Ok((body, l)) && body@ == t@ && l@ == label,
    }
}

/// The outcome of `lookup_raw` for `token`: the unparsed document and a
/// label saying where it came from.
pub open spec fn raw_lookup_as(token: Seq<char>, root: Seq<char>, fs: Seq<ProbedFile>, r: Result<(String, String), ResolveError>) -> bool {
    match lookup_location(token, root, fs) {
        Location::AdHoc => raw_loaded_as(fs, adhoc_path(root, token), adhoc_path(root, token), r),
        Location::Local => raw_loaded_as(
            fs,
            local_spec_path(root, token),
            "local: "@ + local_spec_path(root, token),
            r,
        ),
        Location::Builtin(i) => r matches Ok((body, l)) && body@ == builtin_bodies()[i] && l@
            == "builtin: "@ + builtin_paths()[i],
        Location::Ambiguous => r matches Err(ResolveError::Ambiguous { token: t }) && t@ == token,
        Location::CatalogNotFound => r matches Err(ResolveError::CatalogNotFound { token: t }) && t@
            == token,
        Location::FileNotFound => r matches Err(ResolveError::FileNotFound { token: t }) && t@
            == token,
    }
}

fn load_raw(fs: &FileView, i: usize, label: String) -> (r: Result<(String, String), ResolveError>)
    requires
        i < fs.files.len(),
    ensures
        match fs.files@[i as int].contents {
            Err(d) => r matches Err(ResolveError::Read { path: p, detail }) && p@
                == fs.files@[i as int].path@ && detail@ == d@,
            Ok(t) => r matches Ok((body, l)) && body@ == t@ && l@ == label@,
        },
{
    match &fs.files[i].contents {
        Err(d) => Err(ResolveError::Read { path: fs.files[i].path.clone(), detail: d.clone() }),
        Ok(t) => Ok((t.clone(), label)),
    }
}

/// The raw, unparsed text of a spec for display, with a label for where it
/// came from (the path, `local: <path>` or `builtin: <catalog path>`).
pub fn lookup_raw(token: &str, repo_root: &str, fs: &FileView) -> (r: Result<(String, String), ResolveError>)
    ensures
        raw_lookup_as(token@, repo_root@, fs.files@, r),
{
    proof {
        lemma_seq_pos(paths_of(fs.files@), token@);
    }
    if !is_path_shaped(token) {
        return Err(ResolveError::Ambiguous { token: owned(token) });
    }
    let adhoc = join(repo_root, token);
    if let Some(i) = find_file(&fs.files, adhoc.as_str()) {
        proof {
            lemma_seq_pos(paths_of(fs.files@), adhoc@);
        }
        let label = adhoc.clone();
        return load_raw(fs, i, label);
    }
    if looks_like_catalog(token) {
        let local = local_catalog_path(repo_root, token);
        if let Some(i) = find_file(&fs.files, local.as_str()) {
            proof {
                lemma_seq_pos(paths_of(fs.files@), local@);
            }
            let label = concat2("local: ", local.as_str());
            return load_raw(fs, i, label);
        }
        let all = builtins::all();
        if let Some(b) = find_builtin(&all, token) {
            let label = concat2("builtin: ", all[b].catalog_path);
            return Ok((owned(all[b].body), label));
        }
        return Err(ResolveError::CatalogNotFound { token: owned(token) });
    }
    Err(ResolveError::FileNotFound { token: owned(token) })
}

/// Every built-in catalog path has the catalog form.
pub proof fn lemma_builtin_paths_are_catalog()
    ensures
        forall|i: int| 0 <= i < builtin_paths().len() ==> catalog_shaped(#[trigger] builtin_paths()[i]),
{
    reveal_strlit("trusted/security");
    reveal_strlit("trusted/supply-chain");
    reveal_strlit("trusted/infra");
    reveal_strlit("trusted/llm-security");
    reveal_strlit("trusted/privacy");
    reveal_strlit("untrusted/security");
    reveal_strlit("untrusted/supply-chain");
    reveal_strlit("untrusted/infra");
    reveal_strlit("untrusted/llm-security");
    reveal_strlit("untrusted/privacy");
    reveal_strlit("trusted");
    reveal_strlit("untrusted");
    assert forall|i: int| 0 <= i < builtin_paths().len() implies catalog_shaped(
        #[trigger] builtin_paths()[i],
    ) by {
        let t = builtin_paths()[i];
        let k = if i < 5 { 7int } else { 9int };
        assert forall|j: int| 0 <= j < k implies t[j] != '/' by {}
        assert(t[k] == '/');
        lemma_first_index_is(t, '/', k);
        assert(t.subrange(0, k) =~= (if i < 5 { "trusted"@ } else { "untrusted"@ }));
        let name = t.subrange(k + 1, t.len() as int);
        assert forall|j: int| 0 <= j < name.len() implies name[j] != '/' && name[j] != '.' by {
            assert(name[j] == t[k + 1 + j]);
        }
    }
}

/// The first occurrence of `c` is at `k` when `s[k] == c` and no earlier
/// character is `c`.
pub proof fn lemma_first_index_is(s: Seq<char>, c: char, k: int)
    requires
        0 <= k < s.len(),
        s[k] == c,
        forall|j: int| 0 <= j < k ==> s[j] != c,
    ensures
        first_index(s, c) == k,
{
    lemma_first_index(s, c);
}

/// `lookup_raw` follows the same lookup chain as `resolve_one`: for every
/// token and every state of the filesystem, both pick the same source.
pub proof fn lemma_lookup_mirrors_resolve(token: Seq<char>, root: Seq<char>, fs: Seq<ProbedFile>)
    ensures
        lookup_location(token, root, fs) == locate(token, root, fs),
{
    lemma_builtin_paths_are_catalog();
    lemma_seq_pos(builtin_paths(), token);
    if builtin_pos(token) >= 0 {
        assert(catalog_shaped(builtin_paths()[builtin_pos(token)]));
    }
}

/// `explain` shows what `resolve` uses: when a token resolves to a spec and
/// its raw text is looked up on the same filesystem, that text's front
/// matter stands for the resolved spec's header and its content is the
/// spec's body.
pub proof fn lemma_raw_text_is_resolved_spec(
    token: Seq<char>,
    root: Seq<char>,
    fs: Seq<ProbedFile>,
    s: Spec,
    raw: (String, String),
)
    requires
        resolves_to(token, root, fs, Ok(s)),
        raw_lookup_as(token, root, fs, Ok(raw)),
    ensures
        gray_matter_yaml(raw.0@) matches Ok((Some(d), content)) && (header_of(d) == Some(s.meta@)
            && content == s.body@),
{
    lemma_lookup_mirrors_resolve(token, root, fs);
}

/// A repo-local spec overrides the built-in of the same catalog path: when
/// the token names no file under the root and the local file exists, the local file
/// is what a catalog token resolves to.
pub proof fn lemma_local_overrides_builtin(token: Seq<char>, root: Seq<char>, fs: Seq<ProbedFile>)
    requires
        catalog_shaped(token),
        !is_file(fs, adhoc_path(root, token)),
        is_file(fs, local_spec_path(root, token)),
    ensures
        locate(token, root, fs) == Location::Local,
{
    lemma_catalog_is_path_shaped(token);
}

/// A bare name (no `/`, no `.`) never resolves: it is reported as ambiguous.
pub proof fn lemma_bare_name_is_ambiguous(token: Seq<char>, root: Seq<char>, fs: Seq<ProbedFile>)
    requires
        !token.contains('/'),
        !token.contains('.'),
    ensures
        locate(token, root, fs) == Location::Ambiguous,
{
}

// ---------------------------------------------------------------------------
// Repo-local specs
// ---------------------------------------------------------------------------
/// An entry of a mode directory: its file name (`None` when it is not
/// valid UTF-8) and its path.
pub struct DirEntryName {
    pub file_name: Option<String>,
    pub path: String,
}

/// What `list` shows, `resolve` accepts: a local spec listed under a known
/// mode as `<mode>/<stem>` has the catalog form whenever its stem has no
/// `.` (a stem never holds `/`).
pub proof fn lemma_listed_local_is_catalog(mode: Seq<char>, stem: Seq<char>)
    requires
        known_mode(mode),
        stem.len() > 0,
        !stem.contains('/'),
        !stem.contains('.'),
    ensures
        catalog_shaped(mode + "/"@ + stem),
{
    reveal_strlit("trusted");
    reveal_strlit("untrusted");
    reveal_strlit("/");
    let t = mode + "/"@ + stem;
    let k = mode.len() as int;
    assert forall|j: int| 0 <= j < k implies t[j] != '/' by {
        assert(t[j] == mode[j]);
    }
    assert(t[k] == '/');
    lemma_first_index_is(t, '/', k);
    assert(t.subrange(0, k) =~= mode);
    assert(t.subrange(k + 1, t.len() as int) =~= stem);
}

/// The index of the last `c` in `s`, or `-1`.
pub open spec fn last_index(s: Seq<char>, c: char) -> int
    decreases s.len(),
{
    if s.len() == 0 {
        -1
    } else if s.last() == c {
        s.len() - 1
    } else {
        last_index(s.drop_last(), c)
    }
}

/// The stem of a file name whose extension is `md` (`Path::extension` and
/// `Path::file_stem`: the extension follows the last `.`, unless that dot
/// starts the name).
pub open spec fn md_stem(name: Seq<char>) -> Option<Seq<char>> {
    let k = last_index(name, '.');
    if k > 0 && name.subrange(k + 1, name.len() as int) == "md"@ {
        Some(name.subrange(0, k))
    } else {
        None
    }
}

/// The catalog entries (`<mode>/<stem>`, path) of the first `n` entries of a
/// mode directory.
pub open spec fn dir_candidates(mode: Seq<char>, es: Seq<DirEntryName>, n: int) -> Seq<(Seq<char>, Seq<char>)>
    decreases n,
{
    if n <= 0 {
        Seq::empty()
    } else {
        let prev = dir_candidates(mode, es, n - 1);
        match es[n - 1].file_name {
            Some(f) => match md_stem(f@) {
                Some(stem) => prev.push((mode + "/"@ + stem, es[n - 1].path@)),
                None => prev,
            },
            None => prev,
        }
    }
}

/// The catalog entries of the first `n` mode directories, in order.
pub open spec fn listing_candidates(dirs: Seq<(String, Vec<DirEntryName>)>, n: int) -> Seq<(Seq<char>, Seq<char>)>
    decreases n,
{
    if n <= 0 {
        Seq::empty()
    } else {
        listing_candidates(dirs, n - 1) + dir_candidates(
            dirs[n - 1].0@,
            dirs[n - 1].1@,
            dirs[n - 1].1@.len() as int,
        )
    }
}

/// The views of (catalog, path) pairs.
pub open spec fn pair_views(v: Seq<(String, String)>) -> Seq<(Seq<char>, Seq<char>)> {
    v.map_values(|p: (String, String)| (p.0@, p.1@))
}

fn last_dot(cs: &Vec<char>) -> (r: Option<usize>)
    ensures
        match r {
            Some(k) => k < cs.len() && k as int == last_index(cs@, '.'),
            None => last_index(cs@, '.') == -1,
        },
{
    let mut n: usize = cs.len();
    proof {
        assert(cs@.subrange(0, n as int) =~= cs@);
    }
    while n > 0
        invariant
            n <= cs.len(),
            last_index(cs@, '.') == last_index(cs@.subrange(0, n as int), '.'),
        decreases n,
    {
        if cs[n - 1] == '.' {
            return Some(n - 1);
        }
        proof {
            assert(cs@.subrange(0, n as int).drop_last() =~= cs@.subrange(0, n - 1));
        }
        n = n - 1;
    }
    None
}

fn stem_of_md(name: &str) -> (r: Option<String>)
    ensures
        match r {
            Some(st) => md_stem(name@) == Some(st@),
            None => md_stem(name@) is None,
        },
{
    let cs = chars_of(name);
    match last_dot(&cs) {
        Some(k) => {
            if k == 0 {
                return None;
            }
            let ext = string_of(&cs, k + 1, cs.len());
            if str_eq(ext.as_str(), "md") {
                Some(string_of(&cs, 0, k))
            } else {
                None
            }
        },
        None => None,
    }
}

/// The repo-local specs found in the mode directories of
/// `.oaudit/auditors/`: every entry whose name has the `md` extension, as
/// (`<mode>/<stem>`, path), sorted by catalog path.
///
/// `dirs` pairs each mode with the entries of its directory (an empty list
/// where the directory could not be read).
pub fn list_local(dirs: &Vec<(String, Vec<DirEntryName>)>) -> (out: Vec<(String, String)>)
    ensures
        sorted_by_key(out@),
        pair_views(out@).to_multiset() == listing_candidates(dirs@, dirs@.len() as int).to_multiset(),
{
    let mut cands: Vec<(String, String)> = Vec::new();
    let mut d: usize = 0;
    proof {
        assert(pair_views(cands@) =~= Seq::<(Seq<char>, Seq<char>)>::empty());
    }
    while d < dirs.len()
        invariant
            d <= dirs.len(),
            pair_views(cands@) == listing_candidates(dirs@, d as int),
        decreases dirs.len() - d,
    {
        let mode = &dirs[d].0;
        let es = &dirs[d].1;
        let ghost base = pair_views(cands@);
        let mut i: usize = 0;
        proof {
            assert(base + dir_candidates(mode@, es@, 0) =~= base);
        }
        while i < es.len()
            invariant
                i <= es.len(),
                pair_views(cands@) == base + dir_candidates(mode@, es@, i as int),
            decreases es.len() - i,
        {
            match &es[i].file_name {
                Some(f) => match stem_of_md(f.as_str()) {
                    Some(stem) => {
                        let catalog = concat3(mode.as_str(), "/", stem.as_str());
                        let ghost prev = pair_views(cands@);
                        let entry = (catalog, es[i].path.clone());
                        cands.push(entry);
                        proof {
                            assert(pair_views(cands@) =~= prev.push((entry.0@, entry.1@)));
                        }
                    },
                    None => {},
                },
                None => {},
            }
            i = i + 1;
        }
        d = d + 1;
    }
    let out = sort_by_key(cands);
    proof {
        lemma_multiset_map(out@, cands@, |p: (String, String)| (p.0@, p.1@));
    }
    out
}

} // verus!
