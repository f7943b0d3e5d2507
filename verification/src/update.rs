//! `oaudit update` — re-run the installer that matches this binary.
//!
//! An npm-wrapper install (`…/node_modules/@openthink/audit/…`) is updated
//! with npm; anything else with the shell installer from GitHub Releases,
//! after a warning (and a pause, unless `--yes`) when the binary lives where
//! a package manager usually owns it. Windows has no automatic update.
use crate::strings::{concat3, contains_str, decimal, decimal_string, has_substring};
use vstd::prelude::*;

verus! {

/// Where the shell installer is downloaded from.
pub open spec fn installer_url() -> Seq<char> {
    "https://github.com/OpenThinkAi/open-audit/releases/latest/download/open-audit-installer.sh"@
}

/// Where releases can be downloaded by hand.
pub open spec fn releases_url() -> Seq<char> {
    "https://github.com/OpenThinkAi/open-audit/releases/latest"@
}

/// Directory prefixes that package managers typically own (Homebrew on
/// Apple Silicon and Intel, Linuxbrew, system package managers, Nix).
pub open spec fn package_manager_markers() -> Seq<Seq<char>> {
    seq![
        "/opt/homebrew/"@,
        "/usr/local/Cellar/"@,
        "/usr/local/opt/"@,
        "/home/linuxbrew/"@,
        "/usr/bin/"@,
        "/usr/sbin/"@,
        "/nix/store/"@,
    ]
}

/// `path` contains one of the package-manager markers.
pub open spec fn package_manager_owned(path: Seq<char>) -> bool {
    exists|i: int|
        0 <= i < package_manager_markers().len() && has_substring(
            path,
            #[trigger] package_manager_markers()[i],
        )
}

/// A path is package-manager-owned exactly when it contains one of the
/// prefixes that Apple Silicon Homebrew (`/opt/homebrew/`), Intel Homebrew
/// (`/usr/local/Cellar/`, `/usr/local/opt/`), Linuxbrew
/// (`/home/linuxbrew/`), system package managers (`/usr/bin/`,
/// `/usr/sbin/`) and Nix (`/nix/store/`) own.
pub proof fn lemma_package_manager_prefixes(path: Seq<char>)
    ensures
        package_manager_owned(path) <==> (has_substring(path, "/opt/homebrew/"@) || has_substring(
            path,
            "/usr/local/Cellar/"@,
        ) || has_substring(path, "/usr/local/opt/"@) || has_substring(path, "/home/linuxbrew/"@)
            || has_substring(path, "/usr/bin/"@) || has_substring(path, "/usr/sbin/"@)
            || has_substring(path, "/nix/store/"@)),
{
    let ms = package_manager_markers();
    if has_substring(path, "/opt/homebrew/"@) {
        assert(has_substring(path, ms[0]));
    }
    if has_substring(path, "/usr/local/Cellar/"@) {
        assert(has_substring(path, ms[1]));
    }
    if has_substring(path, "/usr/local/opt/"@) {
        assert(has_substring(path, ms[2]));
    }
    if has_substring(path, "/home/linuxbrew/"@) {
        assert(has_substring(path, ms[3]));
    }
    if has_substring(path, "/usr/bin/"@) {
        assert(has_substring(path, ms[4]));
    }
    if has_substring(path, "/usr/sbin/"@) {
        assert(has_substring(path, ms[5]));
    }
    if has_substring(path, "/nix/store/"@) {
        assert(has_substring(path, ms[6]));
    }
}

/// Best-effort hint that installing over `path` would shadow a managed copy.
pub fn looks_package_manager_owned(path: &str) -> (b: bool)
    ensures
        b == package_manager_owned(path@),
{
    let markers: [&str; 7] = [
        "/opt/homebrew/",
        "/usr/local/Cellar/",
        "/usr/local/opt/",
        "/home/linuxbrew/",
        "/usr/bin/",
        "/usr/sbin/",
        "/nix/store/",
    ];
    let mut i: usize = 0;
    while i < 7
        invariant
            i <= 7,
            forall|k: int| 0 <= k < 7 ==> (#[trigger] markers@[k])@ == package_manager_markers()[k],
            forall|k: int| 0 <= k < i ==> !has_substring(path@, #[trigger] package_manager_markers()[k]),
        decreases 7 - i,
    {
        if contains_str(path, markers[i]) {
            return true;
        }
        i = i + 1;
    }
    false
}

/// The binary was installed through the npm wrapper (either separator).
pub open spec fn npm_installed(exe: Seq<char>) -> bool {
    has_substring(exe, "node_modules/@openthink/audit"@) || has_substring(
        exe,
        "node_modules\\@openthink\\audit"@,
    )
}

/// A binary under the npm wrapper's package directory is always updated
/// with npm, with either path separator and even on Windows; any other
/// binary never is.
pub proof fn lemma_npm_first(exe: Seq<char>, windows: bool, yes: bool, r: Result<Installer, UpdateError>)
    requires
        npm_installed(exe) ==> r == Ok::<Installer, UpdateError>(Installer::Npm),
        !npm_installed(exe) && windows ==> r == Err::<Installer, UpdateError>(UpdateError::Windows),
        !npm_installed(exe) && !windows ==> r == Ok::<Installer, UpdateError>(
            Installer::Shell {
                warn: package_manager_owned(exe),
                pause: package_manager_owned(exe) && !yes,
            },
        ),
    ensures
        has_substring(exe, "node_modules/@openthink/audit"@) || has_substring(
            exe,
            "node_modules\\@openthink\\audit"@,
        ) <==> r == Ok::<Installer, UpdateError>(Installer::Npm),
        r == Err::<Installer, UpdateError>(UpdateError::Windows) ==> windows,
{
}

/// How to update.
#[derive(Clone, Copy, Debug, PartialEq, Eq, Structural)]
pub enum Installer {
    /// `npm install -g @openthink/audit@latest`.
    Npm,
    /// The shell installer; `warn`: print the shadowing warning first;
    /// `pause`: then wait before running it.
    Shell { warn: bool, pause: bool },
}

/// Why updating failed.
#[derive(Clone, Copy, Debug, PartialEq, Eq, Structural)]
pub enum UpdateError {
    /// No automatic update on Windows.
    Windows,
    /// npm exited unsuccessfully, with this exit code if any.
    NpmFailed { code: Option<i32> },
    /// The installer pipeline exited unsuccessfully.
    InstallerFailed { code: Option<i32> },
}

/// Picks the installer for the binary at `exe`: npm first (so that a
/// Windows npm install updates too), no update on other Windows installs,
/// else the shell installer, with the warning when the path looks
/// package-manager-owned and the pause unless `yes`.
pub fn choose_installer(exe: &str, windows: bool, yes: bool) -> (r: Result<Installer, UpdateError>)
    ensures
        npm_installed(exe@) ==> r == Ok::<Installer, UpdateError>(Installer::Npm),
        !npm_installed(exe@) && windows ==> r == Err::<Installer, UpdateError>(UpdateError::Windows),
        !npm_installed(exe@) && !windows ==> r == Ok::<Installer, UpdateError>(
            Installer::Shell {
                warn: package_manager_owned(exe@),
                pause: package_manager_owned(exe@) && !yes,
            },
        ),
{
    if contains_str(exe, "node_modules/@openthink/audit") || contains_str(
        exe,
        "node_modules\\@openthink\\audit",
    ) {
        return Ok(Installer::Npm);
    }
    if windows {
        return Err(UpdateError::Windows);
    }
    let owned = looks_package_manager_owned(exe);
    Ok(Installer::Shell { warn: owned, pause: owned && !yes })
}

/// The shell pipeline that downloads and runs the installer; `pipefail`
/// makes a failed download fail the pipeline.
pub fn installer_script() -> (s: String)
    ensures
        s@ == "set -euo pipefail; curl -LsSf "@ + installer_url() + " | sh"@,
{
    concat3(
        "set -euo pipefail; curl -LsSf ",
        "https://github.com/OpenThinkAi/open-audit/releases/latest/download/open-audit-installer.sh",
        " | sh",
    )
}

/// The warning shown before the shell installer runs over a binary that
/// lives at `exe`, a path that looks package-manager-owned.
pub open spec fn shadow_warning_text(exe: Seq<char>) -> Seq<char> {
    "oaudit: warning \u{2014} this binary lives at "@ + exe
        + ",\nwhich looks package-manager-owned (Homebrew, apt, \u{2026}).\nThe shell installer will write to $CARGO_HOME/bin and may shadow\nyour existing copy on PATH. If you installed via a package manager,\nhit Ctrl+C now and use that channel to update instead."@
}

/// The shadowing warning for `exe`.
pub fn shadow_warning(exe: &str) -> (s: String)
    ensures
        s@ == shadow_warning_text(exe@),
{
    concat3(
        "oaudit: warning \u{2014} this binary lives at ",
        exe,
        ",\nwhich looks package-manager-owned (Homebrew, apt, \u{2026}).\nThe shell installer will write to $CARGO_HOME/bin and may shadow\nyour existing copy on PATH. If you installed via a package manager,\nhit Ctrl+C now and use that channel to update instead.",
    )
}

/// An exit code as `{:?}` shows it: `Some(<n>)` or `None`.
pub open spec fn exit_code_text(code: Option<i32>) -> Seq<char> {
    match code {
        Some(c) => "Some("@ + (if c < 0 {
            "-"@ + decimal((-c) as nat)
        } else {
            decimal(c as nat)
        }) + ")"@,
        None => "None"@,
    }
}

fn exit_code_string(code: Option<i32>) -> (s: String)
    ensures
        s@ == exit_code_text(code),
{
    match code {
        Some(c) => {
            let mut s = String::from_str("Some(");
            if c < 0 {
                s.append("-");
                let magnitude: i64 = -(c as i64);
                let digits = decimal_string(magnitude as usize);
                s.append(digits.as_str());
            } else {
                let digits = decimal_string(c as usize);
                s.append(digits.as_str());
            }
            s.append(")");
            s
        },
        None => String::from_str("None"),
    }
}

/// The message of an update error.
pub open spec fn update_error_message(e: UpdateError) -> Seq<char> {
    match e {
        UpdateError::Windows => "automatic update is not supported on Windows yet.\nReinstall manually from "@
            + releases_url(),
        UpdateError::NpmFailed { code } => "npm install failed (exit "@ + exit_code_text(code)
            + ").\nTry `npm install -g @openthink/audit@latest` manually, or reinstall from "@
            + releases_url(),
        UpdateError::InstallerFailed { code } => "installer failed (exit "@ + exit_code_text(code)
            + ").\nReinstall manually from "@ + releases_url(),
    }
}

impl UpdateError {
    /// The error's message.
    pub fn message(&self) -> (m: String)
        ensures
            m@ == update_error_message(*self),
    {
        match self {
            UpdateError::Windows => {
                let mut m = String::from_str(
                    "automatic update is not supported on Windows yet.\nReinstall manually from ",
                );
                m.append("https://github.com/OpenThinkAi/open-audit/releases/latest");
                m
            },
            UpdateError::NpmFailed { code } => {
                let mut m = String::from_str("npm install failed (exit ");
                let c = exit_code_string(*code);
                m.append(c.as_str());
                m.append(
                    ").\nTry `npm install -g @openthink/audit@latest` manually, or reinstall from ",
                );
                m.append("https://github.com/OpenThinkAi/open-audit/releases/latest");
                m
            },
            UpdateError::InstallerFailed { code } => {
                let mut m = String::from_str("installer failed (exit ");
                let c = exit_code_string(*code);
                m.append(c.as_str());
                m.append(").\nReinstall manually from ");
                m.append("https://github.com/OpenThinkAi/open-audit/releases/latest");
                m
            },
        }
    }
}

} // verus!
