use open_audit::claude_session::{preflight_outcome, SessionError};
use open_audit::cli::{
    dispatch, explain_output, list_specs_text, stdin_read_cap, Action, Cli, CliError, Command,
    Format,
};
use open_audit::render::{
    bridge_exit_message, bridge_missing_message, is_event_line, on_event, spec_request, BridgeSession,
    BridgeAction, BridgeEvent,
};
use open_audit::update::{
    choose_installer, installer_script, looks_package_manager_owned, shadow_warning, Installer,
    UpdateError,
};

fn run(command: Command) -> Result<Action, CliError> {
    dispatch(Cli { command })
}

#[test]
fn file_dash_reads_stdin_with_text_default() {
    let a = run(Command::File {
        target: "-".to_string(),
        against: None,
        scope: None,
        format: Format::Human,
    })
    .unwrap();
    match a {
        Action::AuditText { label, against, format } => {
            assert_eq!(label, "stdin");
            assert_eq!(against, "untrusted/llm-security");
            assert_eq!(format, Format::Human);
        }
        _ => panic!("expected a text audit"),
    }
}

#[test]
fn file_dash_refuses_scope() {
    let err = run(Command::File {
        target: "-".to_string(),
        against: None,
        scope: Some("src/**".to_string()),
        format: Format::Json,
    })
    .unwrap_err();
    assert_eq!(err, CliError::ScopeOnStdin);
    assert_eq!(err.message(), "--scope has no effect when reading from stdin. Remove --scope.");
}

#[test]
fn file_path_defaults_to_untrusted_security() {
    let a = run(Command::File {
        target: "src/main.rs".to_string(),
        against: None,
        scope: Some("src/**".to_string()),
        format: Format::Json,
    })
    .unwrap();
    match a {
        Action::AuditFile { target, against, scope, format } => {
            assert_eq!(target, "src/main.rs");
            assert_eq!(against, "untrusted/security");
            assert_eq!(scope.as_deref(), Some("src/**"));
            assert_eq!(format, Format::Json);
        }
        _ => panic!("expected a file audit"),
    }
}

#[test]
fn explicit_against_is_kept() {
    let a = run(Command::Text {
        label: "issue-42".to_string(),
        against: Some("trusted/privacy".to_string()),
        format: Format::Human,
    })
    .unwrap();
    match a {
        Action::AuditText { label, against, .. } => {
            assert_eq!(label, "issue-42");
            assert_eq!(against, "trusted/privacy");
        }
        _ => panic!("expected a text audit"),
    }
    let a = run(Command::Repo {
        target: "https://example.com/r.git".to_string(),
        against: "trusted/security".to_string(),
        scope: None,
        format: Format::Human,
    })
    .unwrap();
    assert!(matches!(a, Action::AuditRepo { ref against, .. } if against == "trusted/security"));
}

#[test]
fn other_commands_pass_through() {
    assert!(matches!(run(Command::List), Ok(Action::List)));
    assert!(matches!(run(Command::Init), Ok(Action::Init)));
    assert!(matches!(run(Command::Update { yes: true }), Ok(Action::Update { yes: true })));
    let a = run(Command::Explain { spec: "trusted/infra".to_string(), open: true }).unwrap();
    assert!(matches!(a, Action::Explain { ref spec, open: true } if spec == "trusted/infra"));
}

#[test]
fn stdin_cap_is_one_past_the_text_limit() {
    assert_eq!(stdin_read_cap(), 256 * 1024 + 1);
}

#[test]
fn explain_adds_a_missing_newline_only() {
    assert_eq!(explain_output("abc"), "abc\n");
    assert_eq!(explain_output("abc\n"), "abc\n");
    assert_eq!(explain_output(""), "\n");
}

#[test]
fn listing_without_local_specs() {
    let text = list_specs_text(&vec![]);
    let expected = "built-in specs (use `oaudit explain <mode>/<name>` to view):\n\
        \x20 trusted/infra\n\
        \x20 trusted/llm-security\n\
        \x20 trusted/privacy\n\
        \x20 trusted/security\n\
        \x20 trusted/supply-chain\n\
        \x20 untrusted/infra\n\
        \x20 untrusted/llm-security\n\
        \x20 untrusted/privacy\n\
        \x20 untrusted/security\n\
        \x20 untrusted/supply-chain\n\
        \n(no repo-local specs at .oaudit/auditors/ \u{2014} `oaudit init` scaffolds it)\n";
    assert_eq!(text, expected);
}

#[test]
fn listing_marks_overrides_both_ways() {
    let local = vec![
        ("trusted/security".to_string(), ".oaudit/auditors/trusted/security.md".to_string()),
        ("trusted/custom".to_string(), ".oaudit/auditors/trusted/custom.md".to_string()),
    ];
    let text = list_specs_text(&local);
    assert!(text.contains("  trusted/security  (overridden by local)\n"));
    assert!(text.contains("  trusted/privacy\n"));
    assert!(text.contains(
        "  trusted/security  (.oaudit/auditors/trusted/security.md)  (overrides built-in)\n"
    ));
    assert!(text.ends_with("  trusted/custom  (.oaudit/auditors/trusted/custom.md)\n"));
    assert!(text.contains("\nrepo-local specs (use `oaudit explain <mode>/<name>` to view):\n"));
}

#[test]
fn package_manager_paths_are_recognized() {
    assert!(looks_package_manager_owned("/opt/homebrew/bin/oaudit"));
    assert!(looks_package_manager_owned("/usr/bin/oaudit"));
    assert!(looks_package_manager_owned("/nix/store/abc-oaudit/bin/oaudit"));
    assert!(!looks_package_manager_owned("/home/me/.cargo/bin/oaudit"));
    assert!(!looks_package_manager_owned("/usr/local/bin/oaudit"));
}

#[test]
fn npm_install_updates_with_npm_even_on_windows() {
    let exe = "/usr/lib/node_modules/@openthink/audit/bin/oaudit";
    assert_eq!(choose_installer(exe, false, false), Ok(Installer::Npm));
    let win = "C:\\npm\\node_modules\\@openthink\\audit\\oaudit.exe";
    assert_eq!(choose_installer(win, true, false), Ok(Installer::Npm));
}

#[test]
fn windows_without_npm_is_refused() {
    let err = choose_installer("C:\\tools\\oaudit.exe", true, true).unwrap_err();
    assert_eq!(err, UpdateError::Windows);
    assert_eq!(
        err.message(),
        "automatic update is not supported on Windows yet.\nReinstall manually from https://github.com/OpenThinkAi/open-audit/releases/latest"
    );
}

#[test]
fn shell_installer_warns_and_pauses_for_managed_paths() {
    assert_eq!(
        choose_installer("/opt/homebrew/bin/oaudit", false, false),
        Ok(Installer::Shell { warn: true, pause: true })
    );
    assert_eq!(
        choose_installer("/opt/homebrew/bin/oaudit", false, true),
        Ok(Installer::Shell { warn: true, pause: false })
    );
    assert_eq!(
        choose_installer("/home/me/.cargo/bin/oaudit", false, false),
        Ok(Installer::Shell { warn: false, pause: false })
    );
}

#[test]
fn installer_pipeline_and_messages() {
    assert_eq!(
        installer_script(),
        "set -euo pipefail; curl -LsSf https://github.com/OpenThinkAi/open-audit/releases/latest/download/open-audit-installer.sh | sh"
    );
    assert!(shadow_warning("/usr/bin/oaudit")
        .starts_with("oaudit: warning \u{2014} this binary lives at /usr/bin/oaudit,\n"));
    assert_eq!(
        UpdateError::NpmFailed { code: Some(-2) }.message(),
        "npm install failed (exit Some(-2)).\nTry `npm install -g @openthink/audit@latest` manually, or reinstall from https://github.com/OpenThinkAi/open-audit/releases/latest"
    );
    assert_eq!(
        UpdateError::InstallerFailed { code: None }.message(),
        "installer failed (exit None).\nReinstall manually from https://github.com/OpenThinkAi/open-audit/releases/latest"
    );
    assert!(UpdateError::InstallerFailed { code: Some(127) }.message().contains("(exit Some(127))"));
}

#[test]
fn request_carries_markdown_and_title() {
    let req = spec_request("# Hi", Some("builtin: trusted/security"));
    assert_eq!(req.view, "spec");
    assert_eq!(req.data.markdown, "# Hi");
    assert_eq!(req.data.title.as_deref(), Some("builtin: trusted/security"));
    assert_eq!(req.title.as_deref(), Some("builtin: trusted/security"));
    let bare = spec_request("x", None);
    assert!(bare.title.is_none() && bare.data.title.is_none());
}

#[test]
fn bridge_events_decide_what_happens() {
    let ready = BridgeEvent::Ready { url: "http://127.0.0.1:5810".to_string(), port: 5810 };
    match on_event(ready) {
        BridgeAction::Announce(m) => {
            assert_eq!(m, "oaudit: view ready at http://127.0.0.1:5810 (close the tab to exit)")
        }
        _ => panic!("expected an announcement"),
    }
    assert!(matches!(on_event(BridgeEvent::Closed), BridgeAction::Stop));
    match on_event(BridgeEvent::Error { message: "mount() failed".to_string() }) {
        BridgeAction::Fail(m) => assert_eq!(m, "ui-leaf bridge error: mount() failed"),
        _ => panic!("expected a failure"),
    }
    assert!(!is_event_line("   \t"));
    assert!(is_event_line(" {\"type\":\"closed\"} "));
    assert_eq!(
        bridge_missing_message("/x/bridge.mjs"),
        "ui-leaf bridge not found at /x/bridge.mjs\n  set OAUDIT_UI_BRIDGE to override"
    );
    assert_eq!(bridge_exit_message("exit status: 1"), "bridge exited with status exit status: 1");
}

#[test]
fn preflight_outcome_reads_the_version_or_the_failure() {
    assert_eq!(preflight_outcome("agent", true, "  1.2.3 (build)\n", "").unwrap(), "1.2.3 (build)");
    let err = preflight_outcome("agent", false, "", "boom").unwrap_err();
    assert_eq!(err.message(), "`agent --version` failed: boom");
    let nf = SessionError::NotFound {
        program: "agent".to_string(),
        detail: "No such file or directory".to_string(),
        install_url: "https://example.com/install".to_string(),
    };
    assert_eq!(
        nf.message(),
        "`agent` CLI not found on PATH: No such file or directory\n\nInstall: https://example.com/install"
    );
}

#[test]
fn stdin_sugar_and_text_agree() {
    for against in [None, Some("trusted/privacy".to_string())] {
        let a = run(Command::File {
            target: "-".to_string(),
            against: against.clone(),
            scope: None,
            format: Format::Json,
        })
        .unwrap();
        let b = run(Command::Text { label: "stdin".to_string(), against, format: Format::Json })
            .unwrap();
        match (a, b) {
            (
                Action::AuditText { label: la, against: aa, format: fa },
                Action::AuditText { label: lb, against: ab, format: fb },
            ) => {
                assert_eq!(la, lb);
                assert_eq!(aa, ab);
                assert_eq!(fa, fb);
            }
            _ => panic!("expected two text audits"),
        }
    }
}

#[test]
fn bridge_session_succeeds_when_closed_and_exit_is_clean() {
    let mut s = BridgeSession::new();
    assert!(matches!(s.feed("  ", Err(String::new())), BridgeAction::Skip));
    let ready = BridgeEvent::Ready { url: "http://127.0.0.1:1".to_string(), port: 1 };
    assert!(matches!(s.feed("{\"type\":\"ready\"}", Ok(ready)), BridgeAction::Announce(_)));
    assert!(matches!(s.feed("{\"type\":\"closed\"}", Ok(BridgeEvent::Closed)), BridgeAction::Stop));
    assert!(s.finish(true, "exit status: 0").is_ok());
}

#[test]
fn bridge_session_fails_on_bad_lines_errors_and_bad_exits() {
    let mut s = BridgeSession::new();
    match s.feed("nope", Err("expected value".to_string())) {
        BridgeAction::Fail(m) => assert_eq!(m, "parsing bridge event line: nope: expected value"),
        _ => panic!("expected a failure"),
    }
    assert_eq!(s.finish(true, "").unwrap_err(), "parsing bridge event line: nope: expected value");
    let mut s = BridgeSession::new();
    let err = BridgeEvent::Error { message: "mount() failed".to_string() };
    assert!(matches!(s.feed("{}", Ok(err)), BridgeAction::Fail(_)));
    assert_eq!(s.finish(true, "").unwrap_err(), "ui-leaf bridge error: mount() failed");
    let s = BridgeSession::new();
    assert_eq!(s.finish(false, "exit status: 2").unwrap_err(), "bridge exited with status exit status: 2");
}
