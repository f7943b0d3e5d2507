//! The command line: commands, their defaults, and what each one does.
//!
//! Parsing arguments and doing the work (reading stdin, printing, opening
//! subjects) belong to the program; this module decides which action a
//! command stands for and renders the text that `explain` and `list` print.
use crate::builtins::{self, builtin_paths};
use crate::strings::{
    chars_of, lemma_multiset_map, owned, sort_by_key, sorted_by_key, str_eq, views,
};
use vstd::multiset::Multiset;
use vstd::prelude::*;

verus! {

/// Output format.
#[derive(Clone, Copy, Debug, PartialEq, Eq, Structural)]
pub enum Format {
    Json,
    Human,
}

/// The commands.
#[derive(Clone, Debug)]
pub enum Command {
    /// Audit a git repository (URL to clone, or local git path).
    Repo { target: String, against: String, scope: Option<String>, format: Format },
    /// Audit a single file or non-git directory; `-` reads text from stdin.
    File { target: String, against: Option<String>, scope: Option<String>, format: Format },
    /// Audit a string read from stdin.
    Text { label: String, against: Option<String>, format: Format },
    /// List available specs (built-in and repo-local).
    List,
    /// Print a spec's full content (or open it in a browser).
    Explain { spec: String, open: bool },
    /// Scaffold `.oaudit/` in the current directory.
    Init,
    /// Update to the latest release.
    Update { yes: bool },
}

/// A parsed command line.
#[derive(Clone, Debug)]
pub struct Cli {
    pub command: Command,
}

/// The message when `--scope` is given for stdin input; shared by every
/// path that can reject it, so the wording cannot drift.
pub open spec fn stdin_scope_reject_msg() -> Seq<char> {
    "--scope has no effect when reading from stdin. Remove --scope."@
}

/// Default spec for `file <path>` without `--against`.
pub open spec fn default_file_against() -> Seq<char> {
    "untrusted/security"@
}

/// Default spec for `text` (and `file -`) without `--against`: text calls
/// for the LLM/agent surface auditor.
pub open spec fn default_text_against() -> Seq<char> {
    "untrusted/llm-security"@
}

/// Default label of text read from stdin.
pub open spec fn stdin_label() -> Seq<char> {
    "stdin"@
}

/// What to do for a command.
#[derive(Clone, Debug)]
pub enum Action {
    AuditRepo { target: String, against: String, scope: Option<String>, format: Format },
    AuditFile { target: String, against: String, scope: Option<String>, format: Format },
    AuditText { label: String, against: String, format: Format },
    List,
    Explain { spec: String, open: bool },
    Init,
    Update { yes: bool },
}

/// A command line that cannot be carried out.
#[derive(Clone, Debug, PartialEq, Eq, Structural)]
pub enum CliError {
    /// `--scope` was given for stdin input.
    ScopeOnStdin,
}

impl CliError {
    /// The error's message.
    pub fn message(&self) -> (m: String)
        ensures
            m@ == stdin_scope_reject_msg(),
    {
        String::from_str("--scope has no effect when reading from stdin. Remove --scope.")
    }
}

/// An optional string as plain text.
pub open spec fn opt_view(o: Option<String>) -> Option<Seq<char>> {
    match o {
        Some(s) => Some(s@),
        None => None,
    }
}

/// `o`, or `d` when absent.
pub open spec fn or_default(o: Option<String>, d: Seq<char>) -> Seq<char> {
    match o {
        Some(s) => s@,
        None => d,
    }
}

fn against_or(against: Option<String>, default: &str) -> (s: String)
    ensures
        s@ == or_default(against, default@),
{
    match against {
        Some(a) => a,
        None => owned(default),
    }
}

/// What a command line does: `file -` is shorthand for `text` (label
/// `stdin`) and then refuses `--scope`; the default spec for text is
/// `untrusted/llm-security`, for a file path `untrusted/security`.
pub open spec fn dispatches_to(c: Command, r: Result<Action, CliError>) -> bool {
    match c {
        Command::Repo { target, against, scope, format } => r matches Ok(
            Action::AuditRepo { target: t, against: a, scope: s, format: f },
        ) && t@ == target@ && a@ == against@ && opt_view(s) == opt_view(scope) && f == format,
        Command::File { target, against, scope, format } => if target@ == "-"@ {
            if scope is Some {
                r == Err::<Action, CliError>(CliError::ScopeOnStdin)
            } else {
                r matches Ok(Action::AuditText { label: l, against: a, format: f }) && l@
                    == stdin_label() && a@ == or_default(against, default_text_against()) && f
                    == format
            }
        } else {
            r matches Ok(Action::AuditFile { target: t, against: a, scope: s, format: f }) && t@
                == target@ && a@ == or_default(against, default_file_against()) && opt_view(s)
                == opt_view(scope) && f == format
        },
        Command::Text { label, against, format } => r matches Ok(
            Action::AuditText { label: l, against: a, format: f },
        ) && l@ == label@ && a@ == or_default(against, default_text_against()) && f == format,
        Command::List => r matches Ok(Action::List),
        Command::Explain { spec, open } => r matches Ok(Action::Explain { spec: s, open: o })
            && s@ == spec@ && o == open,
        Command::Init => r matches Ok(Action::Init),
        Command::Update { yes } => r matches Ok(Action::Update { yes: y }) && y == yes,
    }
}

/// `file -` and `text` with the default label are one command: without
/// `--scope`, both audit the same text against the same specs, and
/// defaulting `--against` happens the same way in both.
pub proof fn lemma_stdin_sugar_is_text(
    target: String,
    label: String,
    against: Option<String>,
    format: Format,
    r: Result<Action, CliError>,
)
    requires
        target@ == "-"@,
        label@ == stdin_label(),
    ensures
        dispatches_to(Command::File { target, against, scope: None, format }, r) <==> dispatches_to(
            Command::Text { label, against, format },
            r,
        ),
{
}

/// `--against` is honoured whenever it is given, for every audit command;
/// only when it is absent does the default apply: `untrusted/security` for
/// a file path, `untrusted/llm-security` for text (and `file -`), whose
/// label is then `stdin`. `--scope` with `file -` is refused; with a file
/// path it is kept.
pub proof fn lemma_against_defaults(
    target: String,
    label: String,
    against: Option<String>,
    scope: Option<String>,
    format: Format,
    r: Result<Action, CliError>,
    t: Result<Action, CliError>,
)
    ensures
        target@ != "-"@ && dispatches_to(Command::File { target, against, scope, format }, r) ==> (
        r matches Ok(Action::AuditFile { target: t2, against: a, scope: s, format: f }) && t2@
            == target@ && f == format && opt_view(s) == opt_view(scope) && match against {
            Some(given) => a@ == given@,
            None => a@ == "untrusted/security"@,
        }),
        target@ == "-"@ && scope is None && dispatches_to(
            Command::File { target, against, scope, format },
            r,
        ) ==> (r matches Ok(Action::AuditText { label: l, against: a, format: f }) && l@ == "stdin"@
            && f == format && match against {
            Some(given) => a@ == given@,
            None => a@ == "untrusted/llm-security"@,
        }),
        target@ == "-"@ && scope is Some && dispatches_to(
            Command::File { target, against, scope, format },
            r,
        ) ==> r is Err,
        dispatches_to(Command::Text { label, against, format }, t) ==> (t matches Ok(
            Action::AuditText { label: l, against: a, format: f },
        ) && l@ == label@ && f == format && match against {
            Some(given) => a@ == given@,
            None => a@ == "untrusted/llm-security"@,
        }),
{
}

/// Decides what a command line does, as [`dispatches_to`] says.
pub fn dispatch(cli: Cli) -> (r: Result<Action, CliError>)
    ensures
        dispatches_to(cli.command, r),
{
    match cli.command {
        Command::Repo { target, against, scope, format } => Ok(
            Action::AuditRepo { target, against, scope, format },
        ),
        Command::File { target, against, scope, format } => {
            if str_eq(target.as_str(), "-") {
                if scope.is_some() {
                    return Err(CliError::ScopeOnStdin);
                }
                let against = against_or(against, "untrusted/llm-security");
                return Ok(Action::AuditText { label: owned("stdin"), against, format });
            }
            let against = against_or(against, "untrusted/security");
            Ok(Action::AuditFile { target, against, scope, format })
        },
        Command::Text { label, against, format } => {
            let against = against_or(against, "untrusted/llm-security");
            Ok(Action::AuditText { label, against, format })
        },
        Command::List => Ok(Action::List),
        Command::Explain { spec, open } => Ok(Action::Explain { spec, open }),
        Command::Init => Ok(Action::Init),
        Command::Update { yes } => Ok(Action::Update { yes }),
    }
}

/// How many bytes of stdin are read at most: one more than a text subject
/// may hold, so that an oversized input is seen as such and refused.
pub fn stdin_read_cap() -> (n: u64)
    ensures
        n == crate::subject::text::MAX_TEXT_BYTES + 1,
{
    (crate::subject::text::MAX_TEXT_BYTES as u64) + 1
}

/// What `explain` prints for a spec's text: the text, with a newline added
/// unless it already ends with one.
pub open spec fn explain_text(full: Seq<char>) -> Seq<char> {
    if full.len() > 0 && full.last() == '\n' {
        full
    } else {
        full.push('\n')
    }
}

/// The text `explain` prints.
pub fn explain_output(full: &str) -> (s: String)
    ensures
        s@ == explain_text(full@),
{
    let cs = chars_of(full);
    let mut s = owned(full);
    if cs.len() > 0 && cs[cs.len() - 1] == '\n' {
        s
    } else {
        s.push('\n');
        s
    }
}

// ---------------------------------------------------------------------------
// `list`
// ---------------------------------------------------------------------------
/// The built-in lines of the listing: `  <path>`, marked when a local spec
/// overrides it.
pub open spec fn builtin_lines(paths: Seq<Seq<char>>, local: Seq<Seq<char>>) -> Seq<char>
    decreases paths.len(),
{
    if paths.len() == 0 {
        Seq::empty()
    } else {
        builtin_lines(paths.drop_last(), local) + "  "@ + paths.last() + (if local.contains(
            paths.last(),
        ) {
            "  (overridden by local)"@
        } else {
            Seq::empty()
        }) + "\n"@
    }
}

/// The local lines of the listing: `  <catalog>  (<path>)`, marked when it
/// overrides a built-in.
pub open spec fn local_lines(local: Seq<(Seq<char>, Seq<char>)>) -> Seq<char>
    decreases local.len(),
{
    if local.len() == 0 {
        Seq::empty()
    } else {
        local_lines(local.drop_last()) + "  "@ + local.last().0 + "  ("@ + local.last().1 + ")"@
            + (if builtin_paths().contains(local.last().0) {
            "  (overrides built-in)"@
        } else {
            Seq::empty()
        }) + "\n"@
    }
}

/// The whole listing for built-ins in the order `paths` and the local specs
/// `local` (catalog path, path shown).
pub open spec fn listing_text(paths: Seq<Seq<char>>, local: Seq<(Seq<char>, Seq<char>)>) -> Seq<char> {
    "built-in specs (use `oaudit explain <mode>/<name>` to view):\n"@ + builtin_lines(
        paths,
        catalogs(local),
    ) + if local.len() == 0 {
        "\n(no repo-local specs at .oaudit/auditors/ \u{2014} `oaudit init` scaffolds it)\n"@
    } else {
        "\nrepo-local specs (use `oaudit explain <mode>/<name>` to view):\n"@ + local_lines(local)
    }
}

/// The built-in lines, one per catalog path in order: a built-in is marked
/// "(overridden by local)" exactly when some local spec, wherever it stands
/// in the local list, has its catalog path.
pub proof fn lemma_builtin_line_marks(paths: Seq<Seq<char>>, local: Seq<(Seq<char>, Seq<char>)>, p: Seq<char>)
    ensures
        builtin_lines(Seq::empty(), catalogs(local)) == Seq::<char>::empty(),
        builtin_lines(paths.push(p), catalogs(local)) == builtin_lines(paths, catalogs(local)) + "  "@
            + p + (if exists|i: int| 0 <= i < local.len() && (#[trigger] local[i]).0 == p {
            "  (overridden by local)"@
        } else {
            Seq::empty()
        }) + "\n"@,
{
    assert(paths.push(p).drop_last() =~= paths);
    if exists|i: int| 0 <= i < local.len() && (#[trigger] local[i]).0 == p {
        let i = choose|i: int| 0 <= i < local.len() && (#[trigger] local[i]).0 == p;
        assert(catalogs(local)[i] == p);
    }
    if catalogs(local).contains(p) {
        let i = choose|i: int| 0 <= i < catalogs(local).len() && catalogs(local)[i] == p;
        assert(local[i].0 == p);
    }
}

/// The local lines, one per local spec in order: `  <catalog>  (<path>)`,
/// marked "(overrides built-in)" exactly when its catalog path is one of
/// the built-ins'.
pub proof fn lemma_local_line_marks(local: Seq<(Seq<char>, Seq<char>)>, e: (Seq<char>, Seq<char>))
    ensures
        local_lines(Seq::empty()) == Seq::<char>::empty(),
        local_lines(local.push(e)) == local_lines(local) + "  "@ + e.0 + "  ("@ + e.1 + ")"@ + (
        if exists|i: int| 0 <= i < builtin_paths().len() && (#[trigger] builtin_paths()[i]) == e.0 {
            "  (overrides built-in)"@
        } else {
            Seq::empty()
        }) + "\n"@,
{
    assert(local.push(e).drop_last() =~= local);
}

/// The catalog paths of (catalog path, path) pairs.
pub open spec fn catalogs(local: Seq<(Seq<char>, Seq<char>)>) -> Seq<Seq<char>> {
    local.map_values(|p: (Seq<char>, Seq<char>)| p.0)
}

/// The sequence's elements appear in nondecreasing order.
pub open spec fn sorted_seq(s: Seq<Seq<char>>) -> bool {
    forall|i: int, j: int| 0 <= i < j < s.len() ==> crate::strings::lex_le(#[trigger] s[i], #[trigger] s[j])
}

/// The views of (catalog, path) pairs.
pub open spec fn pairs_view(v: Seq<(String, String)>) -> Seq<(Seq<char>, Seq<char>)> {
    v.map_values(|p: (String, String)| (p.0@, p.1@))
}

fn catalog_in(local: &Vec<(String, String)>, c: &str) -> (b: bool)
    ensures
        b == catalogs(pairs_view(local@)).contains(c@),
{
    let ghost cats = catalogs(pairs_view(local@));
    let mut i: usize = 0;
    while i < local.len()
        invariant
            i <= local.len(),
            cats == catalogs(pairs_view(local@)),
            cats.len() == local.len(),
            forall|k: int| 0 <= k < i ==> cats[k] != c@,
        decreases local.len() - i,
    {
        proof {
            assert(cats[i as int] == local@[i as int].0@);
        }
        if str_eq(local[i].0.as_str(), c) {
            return true;
        }
        i = i + 1;
    }
    false
}

fn is_builtin_path(all: &Vec<builtins::Builtin>, c: &str) -> (b: bool)
    requires
        all.len() == builtin_paths().len(),
        forall|k: int| 0 <= k < all.len() ==> (#[trigger] all@[k]).catalog_path@ == builtin_paths()[k],
    ensures
        b == builtin_paths().contains(c@),
{
    let mut i: usize = 0;
    while i < all.len()
        invariant
            i <= all.len(),
            all.len() == builtin_paths().len(),
            forall|k: int| 0 <= k < all.len() ==> (#[trigger] all@[k]).catalog_path@ == builtin_paths()[k],
            forall|k: int| 0 <= k < i ==> builtin_paths()[k] != c@,
        decreases all.len() - i,
    {
        if str_eq(all[i].catalog_path, c) {
            return true;
        }
        i = i + 1;
    }
    false
}

/// What `list` prints, given the repo-local specs (catalog path, path shown
/// relative to the working directory): the built-ins sorted by catalog path,
/// each marked if a local spec overrides it, then the local specs, each
/// marked if it overrides a built-in (or a hint that there are none).
pub fn list_specs_text(local: &Vec<(String, String)>) -> (s: String)
    ensures
        exists|paths: Seq<Seq<char>>|
            #![trigger listing_text(paths, pairs_view(local@))]
            paths.to_multiset() == builtin_paths().to_multiset() && sorted_seq(paths) && s@
                == listing_text(paths, pairs_view(local@)),
{
    let all = builtins::all();
    let mut keyed: Vec<(String, usize)> = Vec::new();
    let mut i: usize = 0;
    while i < all.len()
        invariant
            i <= all.len(),
            all.len() == builtin_paths().len(),
            forall|k: int| 0 <= k < all.len() ==> (#[trigger] all@[k]).catalog_path@ == builtin_paths()[k],
            keyed.len() == i,
            keyed@.map_values(|p: (String, usize)| p.0@) == builtin_paths().subrange(0, i as int),
        decreases all.len() - i,
    {
        let ghost before = keyed@;
        keyed.push((owned(all[i].catalog_path), i));
        proof {
            assert(keyed@.map_values(|p: (String, usize)| p.0@) =~= builtin_paths().subrange(
                0,
                i + 1,
            ));
        }
        i = i + 1;
    }
    proof {
        assert(builtin_paths().subrange(0, all.len() as int) =~= builtin_paths());
    }
    let ghost unsorted = keyed@;
    let sorted = sort_by_key(keyed);
    let ghost paths = sorted@.map_values(|p: (String, usize)| p.0@);
    proof {
        lemma_multiset_map(sorted@, unsorted, |p: (String, usize)| p.0@);
        assert forall|a: int, b: int| 0 <= a < b < paths.len() implies crate::strings::lex_le(
            #[trigger] paths[a],
            #[trigger] paths[b],
        ) by {
            assert(paths[a] == sorted@[a].0@);
            assert(paths[b] == sorted@[b].0@);
        }
    }
    let ghost locals = catalogs(pairs_view(local@));
    let mut out = String::from_str("built-in specs (use `oaudit explain <mode>/<name>` to view):\n");
    let ghost head = out@;
    let mut j: usize = 0;
    proof {
        assert(paths.subrange(0, 0) =~= Seq::<Seq<char>>::empty());
    }
    while j < sorted.len()
        invariant
            j <= sorted.len(),
            paths == sorted@.map_values(|p: (String, usize)| p.0@),
            locals == catalogs(pairs_view(local@)),
            out@ == head + builtin_lines(paths.subrange(0, j as int), locals),
        decreases sorted.len() - j,
    {
        out.append("  ");
        out.append(sorted[j].0.as_str());
        if catalog_in(local, sorted[j].0.as_str()) {
            out.append("  (overridden by local)");
        }
        out.append("\n");
        proof {
            let ps = paths.subrange(0, j + 1);
            assert(ps.drop_last() =~= paths.subrange(0, j as int));
            assert(ps.last() == sorted@[j as int].0@);
        }
        j = j + 1;
    }
    proof {
        assert(paths.subrange(0, sorted.len() as int) =~= paths);
    }
    let ghost listed = out@;
    if local.len() == 0 {
        out.append("\n(no repo-local specs at .oaudit/auditors/ \u{2014} `oaudit init` scaffolds it)\n");
    } else {
        out.append("\nrepo-local specs (use `oaudit explain <mode>/<name>` to view):\n");
        let ghost mid = out@;
        let mut k: usize = 0;
        proof {
            assert(pairs_view(local@).subrange(0, 0) =~= Seq::<(Seq<char>, Seq<char>)>::empty());
        }
        while k < local.len()
            invariant
                k <= local.len(),
                all.len() == builtin_paths().len(),
                forall|q: int| 0 <= q < all.len() ==> (#[trigger] all@[q]).catalog_path@ == builtin_paths()[q],
                out@ == mid + local_lines(pairs_view(local@).subrange(0, k as int)),
            decreases local.len() - k,
        {
            out.append("  ");
            out.append(local[k].0.as_str());
            out.append("  (");
            out.append(local[k].1.as_str());
            out.append(")");
            if is_builtin_path(&all, local[k].0.as_str()) {
                out.append("  (overrides built-in)");
            }
            out.append("\n");
            proof {
                let lv = pairs_view(local@).subrange(0, k + 1);
                assert(lv.drop_last() =~= pairs_view(local@).subrange(0, k as int));
                assert(lv.last() == (local@[k as int].0@, local@[k as int].1@));
            }
            k = k + 1;
        }
        proof {
            assert(pairs_view(local@).subrange(0, local.len() as int) =~= pairs_view(local@));
        }
    }
    proof {
        let tail = if local.len() == 0 {
            "\n(no repo-local specs at .oaudit/auditors/ \u{2014} `oaudit init` scaffolds it)\n"@
        } else {
            "\nrepo-local specs (use `oaudit explain <mode>/<name>` to view):\n"@ + local_lines(
                pairs_view(local@),
            )
        };
        assert(out@ =~= listed + tail);
        assert(listed == head + builtin_lines(paths, catalogs(pairs_view(local@))));
        assert(out@ =~= listing_text(paths, pairs_view(local@)));
    }
    out
}

} // verus!
