use open_audit::sandbox::{enforce, requires_sandbox};
use open_audit::spec::{parse, Spec, SpecSource};
use open_audit::strings::{
    contains_str, decimal_string, ends_with_str, find_char, lex_le_chars, sort_by_key, split_str,
    trim_end_str, trim_str,
};
use open_audit::subject::file::{open, FileError, PathStatus};
use open_audit::subject::repo::{self, Repo, RepoError};
use open_audit::subject::text::Text;
use open_audit::subject::Subject;

#[test]
fn opens_a_directory() {
    let f = open(
        "/tmp/t",
        PathStatus::Found { canonical: "/private/tmp/t".to_string(), is_file: false, is_dir: true },
    )
    .unwrap();
    assert!(f.is_dir);
    assert_eq!(f.root, "/private/tmp/t");
}

#[test]
fn opens_a_single_file() {
    let f = open(
        "/tmp/t/a.rs",
        PathStatus::Found { canonical: "/tmp/t/a.rs".to_string(), is_file: true, is_dir: false },
    )
    .unwrap();
    assert!(!f.is_dir);
    assert_eq!(f.root, "/tmp/t/a.rs");
}

#[test]
fn errors_on_non_existent_path() {
    let target = "/definitely/not/a/real/path/here";
    let err = open(target, PathStatus::Missing { detail: "No such file or directory".to_string() })
        .unwrap_err();
    assert!(err.message().contains("does not exist"));
    assert_eq!(
        err.message(),
        "path `/definitely/not/a/real/path/here` does not exist or is not accessible: No such file or directory"
    );
}

#[test]
fn special_files_and_unreadable_metadata_are_refused() {
    let err = open(
        "/dev/null",
        PathStatus::Found { canonical: "/dev/null".to_string(), is_file: false, is_dir: false },
    )
    .unwrap_err();
    assert!(matches!(err, FileError::NotFileOrDir { .. }));
    assert_eq!(
        err.message(),
        "`/dev/null` is neither a file nor a directory (symlink-to-nowhere, special file, etc.)"
    );
    let err = open(
        "x",
        PathStatus::Unreadable { canonical: "/w/x".to_string(), detail: "denied".to_string() },
    )
    .unwrap_err();
    assert_eq!(err.message(), "reading metadata for /w/x: denied");
}

#[test]
fn subject_root_and_label() {
    let repo = Subject::Repo(Repo { root: "/r".to_string(), _tempdir: None, origin: "o".to_string() });
    assert_eq!(repo.root(), "/r");
    assert_eq!(repo.label(), "/r");
    let text = Subject::Text(Text { label: "issue-7".to_string(), content: "c".to_string() });
    assert_eq!(text.label(), "issue-7");
}

#[test]
fn repo_subjects_are_not_available_yet() {
    let err = repo::open("https://example.com/r.git").err().expect("refused");
    assert!(matches!(err, RepoError::NotImplemented));
    assert_eq!(err.message(), "subject::repo::open not yet implemented");
}

fn spec(mode: &str) -> Spec {
    let text = format!("---\nname: s\nmode: {mode}\nkind: prompt\n---\n");
    parse(&text, SpecSource::AdHoc("s.md".to_string())).unwrap()
}

#[test]
fn sandbox_is_required_by_any_untrusted_spec() {
    assert!(!requires_sandbox(&vec![]));
    assert!(!requires_sandbox(&vec![spec("trusted"), spec("trusted")]));
    assert!(requires_sandbox(&vec![spec("trusted"), spec("untrusted")]));
    assert!(enforce(&vec![spec("untrusted")]).is_ok());
}

#[test]
fn trimming_follows_unicode_whitespace() {
    assert_eq!(trim_str(" \t\u{3000}a b\u{2028}\n"), "a b");
    assert_eq!(trim_end_str("  a  \n"), "  a");
    assert_eq!(trim_str("   "), "");
}

#[test]
fn splitting_keeps_empty_pieces() {
    assert_eq!(split_str("a,,b,", ','), vec!["a", "", "b", ""]);
    assert_eq!(split_str("", ','), vec![""]);
}

#[test]
fn substring_and_suffix_tests() {
    assert!(contains_str("no files matched after", "files matched"));
    assert!(contains_str("abc", ""));
    assert!(!contains_str("ab", "abc"));
    assert!(ends_with_str("security.md", ".md"));
    assert!(!ends_with_str("md", ".md"));
}

#[test]
fn first_index_and_order() {
    let cs: Vec<char> = "a/b/c".chars().collect();
    assert_eq!(find_char(&cs, '/'), Some(1));
    assert_eq!(find_char(&cs, 'z'), None);
    let a: Vec<char> = "trusted/x".chars().collect();
    let b: Vec<char> = "trusted/y".chars().collect();
    let p: Vec<char> = "trusted".chars().collect();
    assert!(lex_le_chars(&a, &b));
    assert!(!lex_le_chars(&b, &a));
    assert!(lex_le_chars(&p, &a));
    assert!(lex_le_chars(&a, &a));
}

#[test]
fn decimals() {
    assert_eq!(decimal_string(0), "0");
    assert_eq!(decimal_string(262144), "262144");
    assert_eq!(decimal_string(usize::MAX), usize::MAX.to_string());
}

#[test]
fn sorting_by_key_is_stable_in_content() {
    let v = vec![
        ("untrusted/a".to_string(), 1u8),
        ("trusted/b".to_string(), 2),
        ("trusted/a".to_string(), 3),
    ];
    let out = sort_by_key(v);
    let keys: Vec<&str> = out.iter().map(|p| p.0.as_str()).collect();
    assert_eq!(keys, vec!["trusted/a", "trusted/b", "untrusted/a"]);
    assert_eq!(out[0].1, 3);
}
