use open_audit::resolve::{
    builtins_index, list_local, local_catalog_path, looks_like_catalog, lookup_raw, resolve,
    resolve_one, split_against, DirEntryName, FileView, ProbedFile, ResolveError,
};
use open_audit::spec::{Mode, SpecSource};

const ROOT: &str = "/work/repo";

fn no_files() -> FileView {
    FileView { files: vec![] }
}

fn file(path: &str, text: &str) -> ProbedFile {
    ProbedFile { path: path.to_string(), contents: Ok(text.to_string()) }
}

#[test]
fn resolves_builtin_by_catalog_path() {
    let specs = resolve("trusted/security", ROOT, &no_files()).unwrap();
    assert_eq!(specs.len(), 1);
    assert_eq!(specs[0].meta.name, "security");
    assert_eq!(specs[0].meta.mode, Mode::Trusted);
    assert!(matches!(specs[0].source, SpecSource::Builtin(_)));
}

#[test]
fn resolves_comma_separated() {
    let specs = resolve("trusted/security, untrusted/supply-chain", ROOT, &no_files()).unwrap();
    assert_eq!(specs.len(), 2);
    assert_eq!(specs[0].meta.mode, Mode::Trusted);
    assert_eq!(specs[1].meta.mode, Mode::Untrusted);
    assert_eq!(specs[1].meta.name, "supply-chain");
}

#[test]
fn resolves_ad_hoc_file() {
    let path = "/tmp/t/custom.md";
    let fs = FileView {
        files: vec![file(path, "---\nname: custom\nmode: trusted\nkind: prompt\n---\nbody\n")],
    };
    let specs = resolve(path, ROOT, &fs).unwrap();
    assert_eq!(specs.len(), 1);
    assert_eq!(specs[0].meta.name, "custom");
    assert!(matches!(specs[0].source, SpecSource::AdHoc(_)));
}

#[test]
fn local_overrides_builtin() {
    let local = format!("{ROOT}/.oaudit/auditors/trusted/security.md");
    let fs = FileView {
        files: vec![file(
            &local,
            "---\nname: security\nmode: trusted\nkind: prompt\n---\nlocal-override\n",
        )],
    };
    let spec = resolve_one("trusted/security", ROOT, &fs).unwrap();
    assert!(matches!(spec.source, SpecSource::Local(_)));
    assert!(spec.body.contains("local-override"));
}

#[test]
fn bare_name_errors() {
    let err = resolve("security", ROOT, &no_files()).unwrap_err();
    assert!(err.message().contains("ambiguous"));
    assert!(err.message().contains("trusted/security"));
}

#[test]
fn unknown_catalog_errors() {
    let err = resolve("trusted/nope", ROOT, &no_files()).unwrap_err();
    assert!(err.message().contains("not found"));
}

#[test]
fn list_local_finds_repo_specs() {
    let dir = format!("{ROOT}/.oaudit/auditors/trusted");
    let dirs = vec![
        (
            "trusted".to_string(),
            vec![DirEntryName {
                file_name: Some("custom.md".to_string()),
                path: format!("{dir}/custom.md"),
            }],
        ),
        ("untrusted".to_string(), vec![]),
    ];
    let listed = list_local(&dirs);
    assert_eq!(listed.len(), 1);
    assert_eq!(listed[0].0, "trusted/custom");
}

#[test]
fn empty_against_is_refused() {
    assert!(matches!(resolve(" , ,", ROOT, &no_files()), Err(ResolveError::NoSpecs)));
    assert_eq!(
        ResolveError::NoSpecs.message(),
        "--against requires at least one spec"
    );
}

#[test]
fn tokens_are_trimmed_and_empty_ones_skipped() {
    assert_eq!(split_against(" a/b ,,\tc.md ,"), vec!["a/b", "c.md"]);
    assert_eq!(split_against(""), Vec::<String>::new());
}

#[test]
fn missing_path_like_file_is_file_not_found() {
    let err = resolve("./nope.md", ROOT, &no_files()).unwrap_err();
    assert!(matches!(err, ResolveError::FileNotFound { .. }));
    assert_eq!(err.message(), "spec file `./nope.md` not found");
}

#[test]
fn catalog_shapes() {
    assert!(looks_like_catalog("trusted/security"));
    assert!(looks_like_catalog("untrusted/x"));
    assert!(!looks_like_catalog("other/x"));
    assert!(!looks_like_catalog("trusted/"));
    assert!(!looks_like_catalog("trusted/a/b"));
    assert!(!looks_like_catalog("trusted/a.md"));
    assert!(!looks_like_catalog("security"));
}

#[test]
fn local_path_joins_like_pathbuf() {
    assert_eq!(
        local_catalog_path("/r", "trusted/x"),
        "/r/.oaudit/auditors/trusted/x.md"
    );
    assert_eq!(
        local_catalog_path("/r/", "trusted/x"),
        "/r/.oaudit/auditors/trusted/x.md"
    );
    assert_eq!(local_catalog_path("", "trusted/x"), ".oaudit/auditors/trusted/x.md");
}

#[test]
fn unreadable_file_is_a_read_error() {
    let fs = FileView {
        files: vec![ProbedFile {
            path: "/work/repo/./a.md".to_string(),
            contents: Err("stream did not contain valid UTF-8".to_string()),
        }],
    };
    let err = resolve_one("./a.md", ROOT, &fs).unwrap_err();
    assert_eq!(
        err.message(),
        "reading spec file /work/repo/./a.md: stream did not contain valid UTF-8"
    );
}

#[test]
fn first_failing_token_is_reported() {
    let err = resolve("trusted/security,bare,trusted/nope", ROOT, &no_files()).unwrap_err();
    assert!(matches!(err, ResolveError::Ambiguous { token } if token == "bare"));
}

#[test]
fn builtins_index_lists_every_builtin() {
    let idx = builtins_index();
    assert!(idx.starts_with("    trusted/security\n"));
    assert!(idx.ends_with("    untrusted/privacy"));
    assert_eq!(idx.lines().count(), 10);
}

#[test]
fn lookup_raw_labels_each_source() {
    let (body, label) = lookup_raw("trusted/security", ROOT, &no_files()).unwrap();
    assert!(body.starts_with("---\nname: security\n"));
    assert_eq!(label, "builtin: trusted/security");
    let local = format!("{ROOT}/.oaudit/auditors/trusted/security.md");
    let fs = FileView { files: vec![file(&local, "raw local text")] };
    let (body, label) = lookup_raw("trusted/security", ROOT, &fs).unwrap();
    assert_eq!(body, "raw local text");
    assert_eq!(label, format!("local: {local}"));
    let fs = FileView { files: vec![file(&format!("{ROOT}/notes/custom.md"), "raw")] };
    let (_, label) = lookup_raw("notes/custom.md", ROOT, &fs).unwrap();
    assert_eq!(label, format!("{ROOT}/notes/custom.md"));
    let fs = FileView { files: vec![file("notes/custom.md", "raw")] };
    assert!(matches!(
        lookup_raw("notes/custom.md", ROOT, &fs),
        Err(ResolveError::FileNotFound { .. })
    ));
    assert!(matches!(
        lookup_raw("plain", ROOT, &no_files()),
        Err(ResolveError::Ambiguous { .. })
    ));
}

#[test]
fn list_local_sorts_and_filters() {
    let d = |n: &str| DirEntryName { file_name: Some(n.to_string()), path: format!("/p/{n}") };
    let dirs = vec![
        ("trusted".to_string(), vec![d("zeta.md"), d("notes.txt"), d(".md"), d("a.b.md")]),
        (
            "untrusted".to_string(),
            vec![d("alpha.md"), DirEntryName { file_name: None, path: "/p/bad".to_string() }],
        ),
    ];
    let listed = list_local(&dirs);
    let cats: Vec<&str> = listed.iter().map(|(c, _)| c.as_str()).collect();
    assert_eq!(cats, vec!["trusted/a.b", "trusted/zeta", "untrusted/alpha"]);
    assert_eq!(listed[1].1, "/p/zeta.md");
}

#[test]
fn listed_local_specs_resolve_to_their_files() {
    let path = format!("{ROOT}/.oaudit/auditors/untrusted/custom.md");
    let dirs = vec![
        ("trusted".to_string(), vec![]),
        (
            "untrusted".to_string(),
            vec![
                DirEntryName { file_name: Some("custom.md".to_string()), path: path.clone() },
                DirEntryName { file_name: Some("notes.txt".to_string()), path: "n".to_string() },
                DirEntryName { file_name: Some(".md".to_string()), path: "h".to_string() },
            ],
        ),
    ];
    let listed = list_local(&dirs);
    assert_eq!(listed, vec![("untrusted/custom".to_string(), path.clone())]);
    assert!(looks_like_catalog(&listed[0].0));
    assert_eq!(local_catalog_path(ROOT, &listed[0].0), path);
    let fs = FileView {
        files: vec![file(&path, "---\nname: custom\nmode: untrusted\nkind: prompt\n---\nmine\n")],
    };
    let spec = resolve_one(&listed[0].0, ROOT, &fs).unwrap();
    assert_eq!(spec.meta.name, "custom");
    assert!(matches!(spec.source, SpecSource::Local(ref p) if p == &path));
}

#[test]
fn relative_ad_hoc_file_is_looked_up_under_the_root() {
    let fs = FileView {
        files: vec![file("/r/x.md", "---\nname: x\nmode: untrusted\nkind: hybrid\n---\nb\n")],
    };
    let spec = resolve_one("x.md", "/r", &fs).unwrap();
    assert_eq!(spec.meta.name, "x");
    assert!(matches!(spec.source, SpecSource::AdHoc(ref p) if p == "/r/x.md"));
}
