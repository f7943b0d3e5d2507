use open_audit::evidence::{
    effective_scope, normalize, EvidenceError, GatherResult, Gatherer, PathPart, MAX_FILE_BYTES,
};
use open_audit::spec::{parse, Spec, SpecSource};
use open_audit::subject::repo::Repo;
use open_audit::subject::Subject;

const ROOT: &str = "/work/subject";

/// What the walk finds at one path.
enum Entry<'a> {
    /// A regular file holding this text.
    Text(&'a str),
    /// A regular file whose bytes are not UTF-8.
    Binary(u64),
    /// A regular file of this many bytes of `x`.
    Sized(u64),
    /// A directory.
    Dir,
}

fn make_subject() -> Subject {
    Subject::Repo(Repo { root: ROOT.to_string(), _tempdir: None, origin: ROOT.to_string() })
}

fn parse_spec(text: &str) -> Spec {
    parse(text, SpecSource::Builtin("test/spec".to_string())).unwrap()
}

fn parts(rel: &str) -> Vec<PathPart> {
    rel.split('/').map(|s| PathPart::Normal(s.to_string())).collect()
}

/// Drives a gatherer over the entries as a walk of the subject would.
fn gather(
    spec: &Spec,
    scope_override: Option<&str>,
    entries: &[(&str, Entry)],
) -> Result<GatherResult, EvidenceError> {
    let subject = make_subject();
    let mut g = Gatherer::new(&subject, spec, scope_override)?;
    for (rel, entry) in entries {
        let is_file = !matches!(entry, Entry::Dir);
        if !g.consider(is_file, Some(parts(rel))) {
            continue;
        }
        let len = match entry {
            Entry::Text(t) => t.len() as u64,
            Entry::Binary(n) | Entry::Sized(n) => *n,
            Entry::Dir => unreachable!(),
        };
        if !g.sized(Some(len)) {
            continue;
        }
        match entry {
            Entry::Text(t) => g.read(Some(t.to_string())),
            Entry::Sized(n) => g.read(Some("x".repeat(*n as usize))),
            _ => g.read(None),
        }
    }
    g.finish()
}

fn paths(res: &GatherResult) -> Vec<&str> {
    res.chunks[0].files.iter().map(|f| f.path.as_str()).collect()
}

const ALL_SCOPE: &str =
    "---\nname: t\nmode: trusted\nkind: prompt\ndefault_scope:\n  include: [\"**/*\"]\n  exclude: []\n---\n";

#[test]
fn gathers_files_matching_default_scope() {
    let spec = parse_spec(ALL_SCOPE);
    let res = gather(
        &spec,
        None,
        &[("src", Entry::Dir), ("src/lib.rs", Entry::Text("fn x() {}")), ("README.md", Entry::Text("# hi"))],
    )
    .unwrap();
    assert_eq!(res.chunks.len(), 1);
    let paths = paths(&res);
    assert!(paths.contains(&"src/lib.rs"));
    assert!(paths.contains(&"README.md"));
    assert_eq!(res.stats.skipped_too_large, 0);
    assert_eq!(res.stats.skipped_binary, 0);
}

#[test]
fn excludes_match_filters_out() {
    let spec = parse_spec(
        "---\nname: t\nmode: trusted\nkind: prompt\ndefault_scope:\n  include: [\"**/*\"]\n  exclude: [\"target/**\"]\n---\n",
    );
    let res = gather(
        &spec,
        None,
        &[("src/main.rs", Entry::Text("fn main() {}")), ("target/debug/oaudit", Entry::Text("binary-ish"))],
    )
    .unwrap();
    let paths = paths(&res);
    assert!(paths.contains(&"src/main.rs"));
    assert!(!paths.iter().any(|p| p.starts_with("target/")));
}

#[test]
fn scope_override_replaces_include() {
    let spec = parse_spec(ALL_SCOPE);
    let res = gather(&spec, Some("src/**"), &[("src/a.rs", Entry::Text("")), ("docs/b.md", Entry::Text(""))])
        .unwrap();
    let paths = paths(&res);
    assert!(paths.contains(&"src/a.rs"));
    assert!(!paths.iter().any(|p| p.starts_with("docs/")));
}

#[test]
fn scope_override_preserves_spec_exclude() {
    let spec = parse_spec(
        "---\nname: t\nmode: trusted\nkind: prompt\ndefault_scope:\n  include: [\"**/*\"]\n  exclude: [\"src/sub/**\"]\n---\n",
    );
    let res =
        gather(&spec, Some("src/**"), &[("src/a.rs", Entry::Text("")), ("src/sub/b.rs", Entry::Text(""))])
            .unwrap();
    let paths = paths(&res);
    assert!(paths.contains(&"src/a.rs"));
    assert!(!paths.iter().any(|p| p.starts_with("src/sub/")));
}

#[test]
fn skips_files_larger_than_limit_and_counts_them() {
    let spec = parse_spec(ALL_SCOPE);
    let res = gather(
        &spec,
        None,
        &[("small.txt", Entry::Text("tiny")), ("big.txt", Entry::Sized(MAX_FILE_BYTES + 1024))],
    )
    .unwrap();
    let paths = paths(&res);
    assert!(paths.contains(&"small.txt"));
    assert!(!paths.contains(&"big.txt"));
    assert_eq!(res.stats.skipped_too_large, 1);
}

#[test]
fn skips_binary_files_and_counts_them() {
    let spec = parse_spec(ALL_SCOPE);
    let res =
        gather(&spec, None, &[("src/text.rs", Entry::Text("fn x() {}")), ("data.bin", Entry::Binary(4))])
            .unwrap();
    let paths = paths(&res);
    assert!(paths.contains(&"src/text.rs"));
    assert!(!paths.contains(&"data.bin"));
    assert_eq!(res.stats.skipped_binary, 1);
}

#[test]
fn errors_when_scope_matches_nothing() {
    let spec = parse_spec(
        "---\nname: t\nmode: trusted\nkind: prompt\ndefault_scope:\n  include: [\"**/*.tsx\"]\n  exclude: []\n---\n",
    );
    let err = gather(&spec, None, &[("src/a.rs", Entry::Text(""))]).unwrap_err();
    assert!(err.message().contains("no files matched"));
    assert!(matches!(err, EvidenceError::NoFilesMatched { ref root } if root == ROOT));
}

#[test]
fn file_at_exactly_the_limit_is_kept() {
    let spec = parse_spec(ALL_SCOPE);
    let res = gather(&spec, None, &[("edge.txt", Entry::Sized(MAX_FILE_BYTES))]).unwrap();
    assert_eq!(paths(&res), vec!["edge.txt"]);
    assert_eq!(res.stats.skipped_too_large, 0);
}

#[test]
fn star_does_not_cross_a_separator() {
    let spec = parse_spec(
        "---\nname: t\nmode: trusted\nkind: prompt\ndefault_scope:\n  include: [\"src/*.rs\"]\n---\n",
    );
    let res = gather(&spec, None, &[("src/a.rs", Entry::Text("a")), ("src/sub/b.rs", Entry::Text("b"))])
        .unwrap();
    assert_eq!(paths(&res), vec!["src/a.rs"]);
}

#[test]
fn empty_include_list_means_everything() {
    let spec = parse_spec(
        "---\nname: t\nmode: trusted\nkind: prompt\ndefault_scope:\n  include: []\n  exclude: [\"*.md\"]\n---\n",
    );
    let res = gather(&spec, None, &[("a.rs", Entry::Text("a")), ("b.md", Entry::Text("b"))]).unwrap();
    assert_eq!(paths(&res), vec!["a.rs"]);
}

#[test]
fn no_scope_means_everything() {
    let spec = parse_spec("---\nname: t\nmode: trusted\nkind: prompt\n---\n");
    let res = gather(&spec, None, &[(".git/HEAD", Entry::Text("ref")), ("x/y/z.txt", Entry::Text("z"))])
        .unwrap();
    assert_eq!(paths(&res), vec![".git/HEAD", "x/y/z.txt"]);
}

#[test]
fn invalid_glob_is_reported_with_its_list() {
    let spec = parse_spec(ALL_SCOPE);
    let err = effective_scope(&spec, Some("src/[")).err().expect("invalid glob");
    match &err {
        EvidenceError::InvalidGlob { pattern, .. } => assert_eq!(pattern, "src/["),
        _ => panic!("wrong error"),
    }
    assert!(err.message().contains("invalid glob `src/[`"));
    assert!(err.message().contains("compiling include globs"));
}

#[test]
fn invalid_exclude_glob_is_reported() {
    let spec = parse_spec(
        "---\nname: t\nmode: trusted\nkind: prompt\ndefault_scope:\n  include: [\"**/*\"]\n  exclude: [\"a[\"]\n---\n",
    );
    let err = effective_scope(&spec, None).err().expect("invalid glob");
    assert!(err.message().contains("compiling exclude globs"));
}

#[test]
fn walk_errors_are_counted_and_sampled_up_to_the_cap() {
    let spec = parse_spec(ALL_SCOPE);
    let subject = make_subject();
    let mut g = Gatherer::new(&subject, &spec, None).unwrap();
    for i in 0..7 {
        g.walk_error(format!("error {i}"));
    }
    assert!(g.consider(true, Some(parts("a.rs"))));
    assert!(!g.sized(None));
    assert!(g.consider(true, Some(parts("b.rs"))));
    assert!(g.sized(Some(1)));
    g.read(Some("b".to_string()));
    let res = g.finish().unwrap();
    assert_eq!(res.stats.skipped_walk_error, 8);
    assert_eq!(res.stats.walk_error_samples.len(), 5);
    assert_eq!(res.stats.walk_error_samples[0], "error 0");
    assert_eq!(paths(&res), vec!["b.rs"]);
}

#[test]
fn entries_outside_the_root_are_passed_over() {
    let spec = parse_spec(ALL_SCOPE);
    let subject = make_subject();
    let mut g = Gatherer::new(&subject, &spec, None).unwrap();
    assert!(!g.consider(true, None));
    assert!(!g.consider(false, Some(parts("dir"))));
    assert!(g.finish().is_err());
}

#[test]
fn normalize_keeps_only_normal_components() {
    let p = vec![
        PathPart::Other,
        PathPart::Normal("src".to_string()),
        PathPart::Other,
        PathPart::Normal("lib.rs".to_string()),
    ];
    assert_eq!(normalize(&p), "src/lib.rs");
    assert_eq!(normalize(&vec![]), "");
}

#[test]
fn every_file_taken_up_is_gathered_or_counted() {
    let spec = parse_spec(ALL_SCOPE);
    let subject = make_subject();
    let mut g = Gatherer::new(&subject, &spec, None).unwrap();
    let mut admitted = 0;
    for (rel, len, content) in [
        ("a.rs", Some(3), Some("abc")),
        ("big.bin", Some(MAX_FILE_BYTES + 1), None),
        ("gone.rs", None, None),
        ("bin.dat", Some(2), None),
        ("b.rs", Some(1), Some("b")),
    ] {
        if g.consider(true, Some(parts(rel))) {
            admitted += 1;
            if g.sized(len) {
                g.read(content.map(str::to_string));
            }
        }
    }
    let res = g.finish().unwrap();
    let counted = res.chunks[0].files.len() as u32
        + res.stats.skipped_too_large
        + res.stats.skipped_binary
        + res.stats.skipped_walk_error;
    assert_eq!(admitted, 5);
    assert_eq!(counted, admitted);
    assert_eq!(paths(&res), vec!["a.rs", "b.rs"]);
}

#[test]
fn bad_scope_is_reported_when_gathering_starts() {
    let spec = parse_spec(ALL_SCOPE);
    let err = Gatherer::new(&make_subject(), &spec, Some("a[")).err().expect("invalid glob");
    match err {
        EvidenceError::InvalidGlob { list, pattern, .. } => {
            assert_eq!(list, open_audit::evidence::PatternList::Includes);
            assert_eq!(pattern, "a[");
        }
        _ => panic!("wrong error"),
    }
}
