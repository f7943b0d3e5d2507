//! Repository configuration (`.oaudit/config.yml`).
//!
//! Schema, all fields optional:
//!   default_against: ["untrusted/security", "untrusted/supply-chain"]
//!   severity_threshold: high   # exit non-zero at this severity or above
//!
//! The file is read by the caller (through a [`FileView`]); this module
//! parses it with gray_matter's YAML engine and decodes it.
use crate::front_matter::{denotes, read_yaml, yaml_data, yaml_document, FrontValue, YamlModel};
use crate::resolve::{file_pos, join, join_path, FileView};
use crate::spec::{
    decode_string_list_exec, lemma_entry_at, lemma_entry_model, lemma_string_list_model,
    model_string_list,
};
use crate::strings::{str_eq, views};
use vstd::prelude::*;

verus! {

/// The configuration of a repository.
#[derive(Clone, Debug)]
pub struct Config {
    pub default_against: Vec<String>,
    pub severity_threshold: Option<String>,
}

impl Default for Config {
    fn default() -> (c: Self)
        ensures
            c.default_against@.len() == 0,
            c.severity_threshold is None,
    {
        Config { default_against: Vec::new(), severity_threshold: None }
    }
}

/// A configuration as plain values.
pub struct ConfigModel {
    pub default_against: Seq<Seq<char>>,
    pub severity_threshold: Option<Seq<char>>,
}

/// Where a repository keeps its configuration.
pub open spec fn config_file(root: Seq<char>) -> Seq<char> {
    join_path(join_path(root, ".oaudit"@), "config.yml"@)
}

/// The configuration path under `repo_root`.
pub fn config_path(repo_root: &str) -> (p: String)
    ensures
        p@ == config_file(repo_root@),
{
    let dir = join(repo_root, ".oaudit");
    join(dir.as_str(), "config.yml")
}

/// The `severity_threshold` value: absent or null for none, else a string.
pub open spec fn model_threshold(h: Map<Seq<char>, YamlModel>) -> Option<Option<Seq<char>>> {
    if !h.dom().contains("severity_threshold"@) {
        Some(None)
    } else {
        match h["severity_threshold"@] {
            YamlModel::Null => Some(None),
            YamlModel::Str(s) => Some(Some(s)),
            _ => None,
        }
    }
}

/// The configuration a parsed document stands for, if it is a valid one:
/// an empty document, or a map whose `default_against` is a list of
/// strings (empty when absent) and whose `severity_threshold` is a string
/// or null (none when absent); other keys are ignored.
pub open spec fn config_of(m: YamlModel) -> Option<ConfigModel> {
    match m {
        YamlModel::Null => Some(ConfigModel { default_against: Seq::empty(), severity_threshold: None }),
        YamlModel::Hash(h) => {
            let against = if h.dom().contains("default_against"@) {
                model_string_list(h["default_against"@])
            } else {
                Some(Seq::empty())
            };
            match (against, model_threshold(h)) {
                (Some(a), Some(t)) => Some(ConfigModel { default_against: a, severity_threshold: t }),
                _ => None,
            }
        },
        _ => None,
    }
}

/// Why the configuration could not be loaded.
#[derive(Clone, Debug)]
pub enum ConfigError {
    /// The file exists but could not be read.
    Read { path: String, detail: String },
    /// The file is not YAML.
    Parse { path: String, detail: String },
    /// The YAML does not follow the schema.
    Invalid { path: String },
}

/// The message of a configuration error.
pub open spec fn config_error_message(e: ConfigError) -> Seq<char> {
    match e {
        ConfigError::Read { path, detail } => "reading "@ + path@ + ": "@ + detail@,
        ConfigError::Parse { path, detail } => "parsing "@ + path@ + ": "@ + detail@,
        ConfigError::Invalid { path } => path@
            + ": expected a map with optional `default_against` (a list of strings) and `severity_threshold` (a string)"@,
    }
}

impl ConfigError {
    /// The error's message.
    pub fn message(&self) -> (m: String)
        ensures
            m@ == config_error_message(*self),
    {
        match self {
            ConfigError::Read { path, detail } => {
                let mut m = String::from_str("reading ");
                m.append(path.as_str());
                m.append(": ");
                m.append(detail.as_str());
                m
            },
            ConfigError::Parse { path, detail } => {
                let mut m = String::from_str("parsing ");
                m.append(path.as_str());
                m.append(": ");
                m.append(detail.as_str());
                m
            },
            ConfigError::Invalid { path } => {
                let mut m = path.clone();
                m.append(
                    ": expected a map with optional `default_against` (a list of strings) and `severity_threshold` (a string)",
                );
                m
            },
        }
    }
}

/// What loading the configuration gives for the file at `path` holding
/// `text`.
pub open spec fn loaded_config(path: Seq<char>, text: Seq<char>, r: Result<Option<Config>, ConfigError>) -> bool {
    match yaml_document(text) {
        Err(d) => r matches Err(ConfigError::Parse { path: p, detail }) && (p@ == path && detail@ == d),
        Ok(m) => match config_of(m) {
            Some(c) => r matches Ok(Some(cfg)) && (views(cfg.default_against@) == c.default_against
                && match cfg.severity_threshold {
                Some(s) => c.severity_threshold == Some(s@),
                None => c.severity_threshold is None,
            }),
            None => r matches Err(ConfigError::Invalid { path: p }) && p@ == path,
        },
    }
}

/// The index of the entry keyed `key`, if any.
fn find_key(es: &Vec<(String, FrontValue)>, key: &str) -> (r: Option<usize>)
    ensures
        match r {
            Some(i) => i < es.len() && es@[i as int].0@ == key@,
            None => forall|i: int| 0 <= i < es.len() ==> (#[trigger] es@[i]).0@ != key@,
        },
{
    let mut i: usize = 0;
    while i < es.len()
        invariant
            i <= es.len(),
            forall|j: int| 0 <= j < i ==> (#[trigger] es@[j]).0@ != key@,
        decreases es.len() - i,
    {
        if str_eq(es[i].0.as_str(), key) {
            return Some(i);
        }
        i = i + 1;
    }
    None
}

/// Decodes a parsed configuration document (copied three levels deep).
fn decode_config(v: &FrontValue, path: &str, Ghost(m): Ghost<YamlModel>) -> (r: Result<Option<Config>, ConfigError>)
    requires
        denotes(*v, m, 3),
    ensures
        match config_of(m) {
                Some(c) => r matches Ok(Some(cfg)) && (views(cfg.default_against@)
                    == c.default_against && match cfg.severity_threshold {
                    Some(s) => c.severity_threshold == Some(s@),
                    None => c.severity_threshold is None,
                }),
                None => r matches Err(ConfigError::Invalid { path: p }) && p@ == path@,
            },
{
    match v {
        FrontValue::Null => Ok(Some(Config { default_against: Vec::new(), severity_threshold: None })),
        FrontValue::Hash(es) => {
            let ghost h = m->Hash_0;
            proof {
                lemma_entry_model(*v, h, "default_against"@, 3);
                lemma_entry_model(*v, h, "severity_threshold"@, 3);
            }
            let against = match find_key(es, "default_against") {
                None => Vec::new(),
                Some(i) => {
                    proof {
                        lemma_entry_at(es@, i as int);
                        lemma_string_list_model(es@[i as int].1, h["default_against"@], 2);
                    }
                    match decode_string_list_exec(&es[i].1) {
                        Ok(l) => l,
                        Err(_) => {
                            return Err(ConfigError::Invalid { path: crate::strings::owned(path) });
                        },
                    }
                },
            };
            let threshold = match find_key(es, "severity_threshold") {
                None => None,
                Some(i) => {
                    proof {
                        lemma_entry_at(es@, i as int);
                    }
                    match &es[i].1 {
                        FrontValue::Null => None,
                        FrontValue::Str(s) => Some(s.clone()),
                        _ => {
                            return Err(ConfigError::Invalid { path: crate::strings::owned(path) });
                        },
                    }
                },
            };
            Ok(Some(Config { default_against: against, severity_threshold: threshold }))
        },
        _ => Err(ConfigError::Invalid { path: crate::strings::owned(path) }),
    }
}

/// Loads the configuration of the repository at `repo_root` from what the
/// filesystem holds (`fs`): none when there is no `.oaudit/config.yml`, its
/// read error, or what parsing and decoding its text gives.
pub fn load(repo_root: &str, fs: &FileView) -> (r: Result<Option<Config>, ConfigError>)
    ensures
        ({
            let path = config_file(repo_root@);
            let k = file_pos(fs.files@, path);
            if k < 0 {
                r matches Ok(None)
            } else {
                match fs.files@[k].contents {
                    Err(d) => r matches Err(ConfigError::Read { path: p, detail }) && (p@ == path
                        && detail@ == d@),
                    Ok(t) => loaded_config(path, t@, r),
                }
            }
        }),
{
    let path = config_path(repo_root);
    match crate::resolve::find_file(&fs.files, path.as_str()) {
        None => Ok(None),
        Some(k) => match &fs.files[k].contents {
            Err(d) => Err(ConfigError::Read { path, detail: d.clone() }),
            Ok(t) => match read_yaml(t.as_str(), 3) {
                Err(d) => Err(ConfigError::Parse { path, detail: d }),
                Ok(v) => {
                    let ghost m = yaml_data(t@);
                    decode_config(&v, path.as_str(), Ghost(m))
                },
            },
        },
    }
}

} // verus!
