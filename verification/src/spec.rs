//! Spec documents: markdown with a YAML front-matter header.
//!
//! The header must be a map with `name`, `mode` (`trusted` | `untrusted`)
//! and `kind` (`prompt` | `deterministic` | `hybrid`); `default_scope`
//! (a map of `include` / `exclude` glob lists) and `deterministic_checks`
//! (a list of strings) are optional. Unknown keys are ignored.
use crate::front_matter::{
    denotes, front_data, gray_matter_yaml, keys_distinct, split_front_matter, FrontMatter, FrontValue, YamlModel,
    FRONT_DEPTH,
};
use crate::strings::views;
use vstd::prelude::*;

verus! {

/// How far the auditor trusts the subject.
#[derive(Clone, Copy, Debug, PartialEq, Eq, Structural)]
pub enum Mode {
    Trusted,
    Untrusted,
}

/// How a spec is evaluated.
#[derive(Clone, Copy, Debug, PartialEq, Eq, Structural)]
pub enum Kind {
    Prompt,
    Deterministic,
    Hybrid,
}

/// The files a spec looks at unless overridden.
#[derive(Clone, Debug)]
pub struct DefaultScope {
    pub includes: Vec<String>,
    pub exclude: Vec<String>,
}

/// The front-matter header of a spec.
#[derive(Clone, Debug)]
pub struct SpecMeta {
    pub name: String,
    pub mode: Mode,
    pub kind: Kind,
    pub default_scope: Option<DefaultScope>,
    pub deterministic_checks: Vec<String>,
}

/// Where a spec came from: an embedded built-in (by catalog path), a
/// repo-local override, or a file named on the command line.
#[derive(Clone, Debug)]
pub enum SpecSource {
    Builtin(String),
    Local(String),
    AdHoc(String),
}

/// A `SpecSource` as plain values.
pub enum SourceModel {
    Builtin(Seq<char>),
    Local(Seq<char>),
    AdHoc(Seq<char>),
}

impl View for SpecSource {
    type V = SourceModel;

    open spec fn view(&self) -> SourceModel {
        match self {
            SpecSource::Builtin(p) => SourceModel::Builtin(p@),
            SpecSource::Local(p) => SourceModel::Local(p@),
            SpecSource::AdHoc(p) => SourceModel::AdHoc(p@),
        }
    }
}

/// A parsed spec: header, markdown body and origin.
#[derive(Clone, Debug)]
pub struct Spec {
    pub meta: SpecMeta,
    pub body: String,
    pub source: SpecSource,
}

// ---------------------------------------------------------------------------
// Mathematical model of the header
// ---------------------------------------------------------------------------
/// A `DefaultScope` as sequences of strings.
pub struct ScopeModel {
    pub includes: Seq<Seq<char>>,
    pub excludes: Seq<Seq<char>>,
}

/// A `SpecMeta` as plain values.
pub struct MetaModel {
    pub name: Seq<char>,
    pub mode: Mode,
    pub kind: Kind,
    pub scope: Option<ScopeModel>,
    pub checks: Seq<Seq<char>>,
}

impl View for DefaultScope {
    type V = ScopeModel;

    open spec fn view(&self) -> ScopeModel {
        ScopeModel { includes: views(self.includes@), excludes: views(self.exclude@) }
    }
}

impl View for SpecMeta {
    type V = MetaModel;

    open spec fn view(&self) -> MetaModel {
        MetaModel {
            name: self.name@,
            mode: self.mode,
            kind: self.kind,
            scope: match self.default_scope {
                Some(s) => Some(s@),
                None => None,
            },
            checks: views(self.deterministic_checks@),
        }
    }
}

// ---------------------------------------------------------------------------
// Decoding errors
// ---------------------------------------------------------------------------
/// The shape a value was expected to have.
#[derive(Clone, Copy, Debug, PartialEq, Eq, Structural)]
pub enum Expected {
    Str,
    Array,
    HashMap,
    NullForUnit,
    SingleKeyMap,
    StringOrSingleKeyMap,
}

/// A header field (of the spec, or of its `default_scope`).
#[derive(Clone, Copy, Debug, PartialEq, Eq, Structural)]
pub enum Field {
    Name,
    Mode,
    Kind,
    DefaultScope,
    DeterministicChecks,
    Include,
    Exclude,
}

/// Which enumeration an unknown variant name was given for.
#[derive(Clone, Copy, Debug, PartialEq, Eq, Structural)]
pub enum VariantOf {
    Mode,
    Kind,
}

/// Why a front-matter value is not a valid header.
#[derive(Clone, Debug)]
pub enum MetaError {
    Type(Expected),
    Missing(Field),
    Duplicate(Field),
    UnknownVariant(String, VariantOf),
}

/// A `MetaError` as plain values.
pub enum MetaFault {
    Type(Expected),
    Missing(Field),
    Duplicate(Field),
    UnknownVariant(Seq<char>, VariantOf),
}

impl View for MetaError {
    type V = MetaFault;

    open spec fn view(&self) -> MetaFault {
        match self {
            MetaError::Type(e) => MetaFault::Type(*e),
            MetaError::Missing(f) => MetaFault::Missing(*f),
            MetaError::Duplicate(f) => MetaFault::Duplicate(*f),
            MetaError::UnknownVariant(s, w) => MetaFault::UnknownVariant(s@, *w),
        }
    }
}

// ---------------------------------------------------------------------------
// The schema, as spec functions over front-matter values
// ---------------------------------------------------------------------------
/// A string value.
pub open spec fn decode_string(v: FrontValue) -> Result<Seq<char>, MetaFault> {
    match v {
        FrontValue::Str(s) => Ok(s@),
        _ => Err(MetaFault::Type(Expected::Str)),
    }
}

/// The first `n` items of a list, each a string.
pub open spec fn decode_strings(items: Seq<FrontValue>, n: int) -> Result<Seq<Seq<char>>, MetaFault>
    decreases n,
{
    if n <= 0 {
        Ok(Seq::empty())
    } else {
        match decode_strings(items, n - 1) {
            Err(e) => Err(e),
            Ok(done) => match decode_string(items[n - 1]) {
                Err(e) => Err(e),
                Ok(s) => Ok(done.push(s)),
            },
        }
    }
}

/// A list of strings.
pub open spec fn decode_string_list(v: FrontValue) -> Result<Seq<Seq<char>>, MetaFault> {
    match v {
        FrontValue::List(items) => decode_strings(items@, items@.len() as int),
        _ => Err(MetaFault::Type(Expected::Array)),
    }
}

/// The mode a name stands for.
pub open spec fn mode_named(s: Seq<char>) -> Option<Mode> {
    if s == "trusted"@ {
        Some(Mode::Trusted)
    } else if s == "untrusted"@ {
        Some(Mode::Untrusted)
    } else {
        None
    }
}

/// The kind a name stands for.
pub open spec fn kind_named(s: Seq<char>) -> Option<Kind> {
    if s == "prompt"@ {
        Some(Kind::Prompt)
    } else if s == "deterministic"@ {
        Some(Kind::Deterministic)
    } else if s == "hybrid"@ {
        Some(Kind::Hybrid)
    } else {
        None
    }
}

/// An enumeration value: a variant name, or a map with the name as its only
/// key and null as its value.
pub open spec fn decode_variant<T>(v: FrontValue, named: spec_fn(Seq<char>) -> Option<T>, of: VariantOf) -> Result<T, MetaFault> {
    match v {
        FrontValue::Str(s) => match named(s@) {
            Some(t) => Ok(t),
            None => Err(MetaFault::UnknownVariant(s@, of)),
        },
        FrontValue::Hash(es) => if es@.len() == 1 {
            match named(es@[0].0@) {
                None => Err(MetaFault::UnknownVariant(es@[0].0@, of)),
                Some(t) => if es@[0].1 is Null {
                    Ok(t)
                } else {
                    Err(MetaFault::Type(Expected::NullForUnit))
                },
            }
        } else {
            Err(MetaFault::Type(Expected::SingleKeyMap))
        },
        _ => Err(MetaFault::Type(Expected::StringOrSingleKeyMap)),
    }
}

/// The `mode` field.
pub open spec fn decode_mode(v: FrontValue) -> Result<Mode, MetaFault> {
    decode_variant(v, |s: Seq<char>| mode_named(s), VariantOf::Mode)
}

/// The `kind` field.
pub open spec fn decode_kind(v: FrontValue) -> Result<Kind, MetaFault> {
    decode_variant(v, |s: Seq<char>| kind_named(s), VariantOf::Kind)
}

/// The header field a key names.
pub open spec fn meta_field(k: Seq<char>) -> Option<Field> {
    if k == "name"@ {
        Some(Field::Name)
    } else if k == "mode"@ {
        Some(Field::Mode)
    } else if k == "kind"@ {
        Some(Field::Kind)
    } else if k == "default_scope"@ {
        Some(Field::DefaultScope)
    } else if k == "deterministic_checks"@ {
        Some(Field::DeterministicChecks)
    } else {
        None
    }
}

/// The `default_scope` field a key names.
pub open spec fn scope_field(k: Seq<char>) -> Option<Field> {
    if k == "include"@ {
        Some(Field::Include)
    } else if k == "exclude"@ {
        Some(Field::Exclude)
    } else {
        None
    }
}

/// The fields of a `default_scope` map read so far.
pub struct ScopeAcc {
    pub includes: Option<Seq<Seq<char>>>,
    pub excludes: Option<Seq<Seq<char>>>,
}

/// Reading one entry of a `default_scope` map.
pub open spec fn scope_step(acc: ScopeAcc, k: Seq<char>, v: FrontValue) -> Result<ScopeAcc, MetaFault> {
    match scope_field(k) {
        Some(Field::Include) => if acc.includes is Some {
            Err(MetaFault::Duplicate(Field::Include))
        } else {
            match decode_string_list(v) {
                Err(e) => Err(e),
                Ok(l) => Ok(ScopeAcc { includes: Some(l), ..acc }),
            }
        },
        Some(_) => if acc.excludes is Some {
            Err(MetaFault::Duplicate(Field::Exclude))
        } else {
            match decode_string_list(v) {
                Err(e) => Err(e),
                Ok(l) => Ok(ScopeAcc { excludes: Some(l), ..acc }),
            }
        },
        None => Ok(acc),
    }
}

/// Reading the first `n` entries of a `default_scope` map, in order.
pub open spec fn scope_fields(es: Seq<(String, FrontValue)>, n: int) -> Result<ScopeAcc, MetaFault>
    decreases n,
{
    if n <= 0 {
        Ok(ScopeAcc { includes: None, excludes: None })
    } else {
        match scope_fields(es, n - 1) {
            Err(e) => Err(e),
            Ok(acc) => scope_step(acc, es[n - 1].0@, es[n - 1].1),
        }
    }
}

/// A missing list defaults to empty.
pub open spec fn or_empty(l: Option<Seq<Seq<char>>>) -> Seq<Seq<char>> {
    match l {
        Some(l) => l,
        None => Seq::empty(),
    }
}

/// The `default_scope` field: null for none, else a map.
pub open spec fn decode_scope(v: FrontValue) -> Result<Option<ScopeModel>, MetaFault> {
    match v {
        FrontValue::Null => Ok(None),
        FrontValue::Hash(es) => match scope_fields(es@, es@.len() as int) {
            Err(e) => Err(e),
            Ok(acc) => Ok(
                Some(ScopeModel { includes: or_empty(acc.includes), excludes: or_empty(acc.excludes) }),
            ),
        },
        _ => Err(MetaFault::Type(Expected::HashMap)),
    }
}

/// The header fields read so far.
pub struct MetaAcc {
    pub name: Option<Seq<char>>,
    pub mode: Option<Mode>,
    pub kind: Option<Kind>,
    pub scope: Option<Option<ScopeModel>>,
    pub checks: Option<Seq<Seq<char>>>,
}

/// The empty accumulator.
pub open spec fn meta_acc_empty() -> MetaAcc {
    MetaAcc { name: None, mode: None, kind: None, scope: None, checks: None }
}

/// Reading one entry of the header map: a key seen twice is an error, the
/// value of a known key must decode, an unknown key is skipped.
pub open spec fn meta_step(acc: MetaAcc, k: Seq<char>, v: FrontValue) -> Result<MetaAcc, MetaFault> {
    match meta_field(k) {
        Some(Field::Name) => if acc.name is Some {
            Err(MetaFault::Duplicate(Field::Name))
        } else {
            match decode_string(v) {
                Err(e) => Err(e),
                Ok(s) => Ok(MetaAcc { name: Some(s), ..acc }),
            }
        },
        Some(Field::Mode) => if acc.mode is Some {
            Err(MetaFault::Duplicate(Field::Mode))
        } else {
            match decode_mode(v) {
                Err(e) => Err(e),
                Ok(m) => Ok(MetaAcc { mode: Some(m), ..acc }),
            }
        },
        Some(Field::Kind) => if acc.kind is Some {
            Err(MetaFault::Duplicate(Field::Kind))
        } else {
            match decode_kind(v) {
                Err(e) => Err(e),
                Ok(m) => Ok(MetaAcc { kind: Some(m), ..acc }),
            }
        },
        Some(Field::DefaultScope) => if acc.scope is Some {
            Err(MetaFault::Duplicate(Field::DefaultScope))
        } else {
            match decode_scope(v) {
                Err(e) => Err(e),
                Ok(s) => Ok(MetaAcc { scope: Some(s), ..acc }),
            }
        },
        Some(_) => if acc.checks is Some {
            Err(MetaFault::Duplicate(Field::DeterministicChecks))
        } else {
            match decode_string_list(v) {
                Err(e) => Err(e),
                Ok(l) => Ok(MetaAcc { checks: Some(l), ..acc }),
            }
        },
        None => Ok(acc),
    }
}

/// Reading the first `n` entries of the header map, in order.
pub open spec fn meta_fields(es: Seq<(String, FrontValue)>, n: int) -> Result<MetaAcc, MetaFault>
    decreases n,
{
    if n <= 0 {
        Ok(meta_acc_empty())
    } else {
        match meta_fields(es, n - 1) {
            Err(e) => Err(e),
            Ok(acc) => meta_step(acc, es[n - 1].0@, es[n - 1].1),
        }
    }
}

/// After all entries: `name`, `mode` and `kind` are required (checked in
/// that order); the rest default to none / empty.
pub open spec fn meta_finish(acc: MetaAcc) -> Result<MetaModel, MetaFault> {
    if acc.name is None {
        Err(MetaFault::Missing(Field::Name))
    } else if acc.mode is None {
        Err(MetaFault::Missing(Field::Mode))
    } else if acc.kind is None {
        Err(MetaFault::Missing(Field::Kind))
    } else {
        Ok(
            MetaModel {
                name: acc.name->0,
                mode: acc.mode->0,
                kind: acc.kind->0,
                scope: match acc.scope {
                    Some(s) => s,
                    None => None,
                },
                checks: or_empty(acc.checks),
            },
        )
    }
}

/// The header a front-matter value stands for.
pub open spec fn decode_meta_spec(v: FrontValue) -> Result<MetaModel, MetaFault> {
    match v {
        FrontValue::Hash(es) => match meta_fields(es@, es@.len() as int) {
            Err(e) => Err(e),
            Ok(acc) => meta_finish(acc),
        },
        _ => Err(MetaFault::Type(Expected::HashMap)),
    }
}

/// Once reading a list fails, reading more of it fails the same way.
pub proof fn lemma_strings_error_sticks(items: Seq<FrontValue>, k: int, n: int)
    requires
        0 <= k <= n,
        decode_strings(items, k) is Err,
    ensures
        decode_strings(items, n) == decode_strings(items, k),
    decreases n - k,
{
    if n > k {
        lemma_strings_error_sticks(items, k, n - 1);
    }
}

/// Once reading a `default_scope` map fails, reading more of it fails the same way.
pub proof fn lemma_scope_error_sticks(es: Seq<(String, FrontValue)>, k: int, n: int)
    requires
        0 <= k <= n,
        scope_fields(es, k) is Err,
    ensures
        scope_fields(es, n) == scope_fields(es, k),
    decreases n - k,
{
    if n > k {
        lemma_scope_error_sticks(es, k, n - 1);
    }
}

/// Once reading the header map fails, reading more of it fails the same way.
pub proof fn lemma_meta_error_sticks(es: Seq<(String, FrontValue)>, k: int, n: int)
    requires
        0 <= k <= n,
        meta_fields(es, k) is Err,
    ensures
        meta_fields(es, n) == meta_fields(es, k),
    decreases n - k,
{
    if n > k {
        lemma_meta_error_sticks(es, k, n - 1);
    }
}

// ---------------------------------------------------------------------------
// The schema over parsed values (maps unordered)
// ---------------------------------------------------------------------------
/// The value of a successful result.
pub open spec fn ok_of<T, E>(r: Result<T, E>) -> Option<T> {
    match r {
        Ok(t) => Some(t),
        Err(_) => None,
    }
}

/// A string.
pub open spec fn model_string(m: YamlModel) -> Option<Seq<char>> {
    match m {
        YamlModel::Str(s) => Some(s),
        _ => None,
    }
}

/// A list of strings.
pub open spec fn model_string_list(m: YamlModel) -> Option<Seq<Seq<char>>> {
    match m {
        YamlModel::List(ms) => if forall|i: int| 0 <= i < ms.len() ==> (#[trigger] ms[i]) is Str {
            Some(ms.map_values(|x: YamlModel| x->Str_0))
        } else {
            None
        },
        _ => None,
    }
}

/// An enumeration value: a variant name, or a map whose only key is the
/// name and whose value is null.
pub open spec fn model_variant<T>(m: YamlModel, named: spec_fn(Seq<char>) -> Option<T>) -> Option<T> {
    match m {
        YamlModel::Str(s) => named(s),
        YamlModel::Hash(h) => if exists|k: Seq<char>| h.dom() == Set::empty().insert(k) {
            let k = choose|k: Seq<char>| h.dom() == Set::empty().insert(k);
            if h[k] is Null {
                named(k)
            } else {
                None
            }
        } else {
            None
        },
        _ => None,
    }
}

/// An optional list field of a map: absent is empty.
pub open spec fn model_list_field(h: Map<Seq<char>, YamlModel>, key: Seq<char>) -> Option<Seq<Seq<char>>> {
    if h.dom().contains(key) {
        model_string_list(h[key])
    } else {
        Some(Seq::empty())
    }
}

/// A `default_scope` value: null for none, else a map whose `include` and
/// `exclude` lists default to empty.
pub open spec fn model_scope(m: YamlModel) -> Option<Option<ScopeModel>> {
    match m {
        YamlModel::Null => Some(None),
        YamlModel::Hash(h) => match (
            model_list_field(h, "include"@),
            model_list_field(h, "exclude"@),
        ) {
            (Some(i), Some(e)) => Some(Some(ScopeModel { includes: i, excludes: e })),
            _ => None,
        },
        _ => None,
    }
}

/// The header a parsed front matter stands for, if it is a valid one: a map
/// with a string `name`, a known `mode` and `kind`, and optionally a
/// `default_scope` and a list of `deterministic_checks`; other keys are
/// ignored.
pub open spec fn header_of(m: YamlModel) -> Option<MetaModel> {
    match m {
        YamlModel::Hash(h) => {
            let name = if h.dom().contains("name"@) {
                model_string(h["name"@])
            } else {
                None
            };
            let mode = if h.dom().contains("mode"@) {
                model_variant(h["mode"@], |s: Seq<char>| mode_named(s))
            } else {
                None
            };
            let kind = if h.dom().contains("kind"@) {
                model_variant(h["kind"@], |s: Seq<char>| kind_named(s))
            } else {
                None
            };
            let scope = if h.dom().contains("default_scope"@) {
                model_scope(h["default_scope"@])
            } else {
                Some(None)
            };
            let checks = model_list_field(h, "deterministic_checks"@);
            if name is Some && mode is Some && kind is Some && scope is Some && checks is Some {
                Some(
                    MetaModel {
                        name: name->0,
                        mode: mode->0,
                        kind: kind->0,
                        scope: scope->0,
                        checks: checks->0,
                    },
                )
            } else {
                None
            }
        },
        _ => None,
    }
}

/// The value of the entry keyed `key` among the first `n`.
pub open spec fn entry_for(es: Seq<(String, FrontValue)>, key: Seq<char>, n: int) -> Option<FrontValue>
    decreases n,
{
    if n <= 0 {
        None
    } else if es[n - 1].0@ == key {
        Some(es[n - 1].1)
    } else {
        entry_for(es, key, n - 1)
    }
}

/// `entry_for` finds the entry with the key, if there is one.
pub proof fn lemma_entry_for(es: Seq<(String, FrontValue)>, key: Seq<char>, n: int)
    requires
        0 <= n <= es.len(),
        keys_distinct(es),
    ensures
        entry_for(es, key, n) is None <==> forall|i: int| 0 <= i < n ==> (#[trigger] es[i]).0@ != key,
        forall|i: int| 0 <= i < n && (#[trigger] es[i]).0@ == key ==> entry_for(es, key, n) == Some(es[i].1),
    decreases n,
{
    if n > 0 {
        lemma_entry_for(es, key, n - 1);
    }
}

/// Where a map's entries stand for `h`, the entry keyed `key` is there
/// exactly when `h` has the key, and stands for its value.
pub proof fn lemma_entry_model(v: FrontValue, h: Map<Seq<char>, YamlModel>, key: Seq<char>, d: nat)
    requires
        d > 0,
        v is Hash,
        denotes(v, YamlModel::Hash(h), d),
    ensures
        entry_for(v->Hash_0@, key, v->Hash_0@.len() as int) is Some <==> h.dom().contains(key),
        entry_for(v->Hash_0@, key, v->Hash_0@.len() as int) matches Some(w) ==> denotes(
            w,
            h[key],
            (d - 1) as nat,
        ),
{
    let es = v->Hash_0@;
    lemma_entry_for(es, key, es.len() as int);
    if h.dom().contains(key) {
        assert(keys_distinct(es));
        assert(h.dom().contains(key));
        assert(forall|k: Seq<char>|
            #[trigger] h.dom().contains(k) ==> exists|i: int|
                0 <= i < es.len() && (#[trigger] es[i]).0@ == k);
        assert(exists|i: int| 0 <= i < es.len() && (#[trigger] es[i]).0@ == key);
        let i = choose|i: int| 0 <= i < es.len() && (#[trigger] es[i]).0@ == key;
        assert(es[i].0@ == key);
    }
    if entry_for(es, key, es.len() as int) is Some {
        let i = choose|i: int| 0 <= i < es.len() && (#[trigger] es[i]).0@ == key;
        assert(h.dom().contains(es[i].0@));
    }
}

/// A string value reads as the string it stands for.
proof fn lemma_string_model(v: FrontValue, m: YamlModel, d: nat)
    requires
        d > 0,
        denotes(v, m, d),
    ensures
        ok_of(decode_string(v)) == model_string(m),
{
}

proof fn lemma_strings_model(vs: Seq<FrontValue>, ms: Seq<YamlModel>, d: nat, n: int)
    requires
        d > 0,
        0 <= n <= vs.len(),
        vs.len() == ms.len(),
        forall|i: int| 0 <= i < vs.len() ==> denotes(#[trigger] vs[i], ms[i], d),
    ensures
        ok_of(decode_strings(vs, n)) == (if forall|i: int| 0 <= i < n ==> (#[trigger] ms[i]) is Str {
            Some(ms.subrange(0, n).map_values(|x: YamlModel| x->Str_0))
        } else {
            None
        }),
    decreases n,
{
    if n > 0 {
        lemma_strings_model(vs, ms, d, n - 1);
        assert(denotes(vs[n - 1], ms[n - 1], d));
        if forall|i: int| 0 <= i < n ==> (#[trigger] ms[i]) is Str {
            assert(ms.subrange(0, n).map_values(|x: YamlModel| x->Str_0) =~= ms.subrange(
                0,
                n - 1,
            ).map_values(|x: YamlModel| x->Str_0).push(ms[n - 1]->Str_0));
        } else {
            let j = choose|j: int| 0 <= j < n && !((#[trigger] ms[j]) is Str);
            if j < n - 1 {
                assert(!(forall|i: int| 0 <= i < n - 1 ==> (#[trigger] ms[i]) is Str));
            }
        }
    }
}

/// A list of strings reads as the list it stands for.
pub proof fn lemma_string_list_model(v: FrontValue, m: YamlModel, d: nat)
    requires
        d > 1,
        denotes(v, m, d),
    ensures
        ok_of(decode_string_list(v)) == model_string_list(m),
{
    if let FrontValue::List(items) = v {
        let ms = m->List_0;
        lemma_strings_model(items@, ms, (d - 1) as nat, items@.len() as int);
        assert(ms.subrange(0, ms.len() as int) =~= ms);
    }
}

/// An enumeration value reads as the variant it stands for.
proof fn lemma_variant_model<T>(v: FrontValue, m: YamlModel, d: nat, named: spec_fn(Seq<char>) -> Option<T>, of: VariantOf)
    requires
        d > 1,
        denotes(v, m, d),
    ensures
        ok_of(decode_variant(v, named, of)) == model_variant(m, named),
{
    if let FrontValue::Hash(es) = v {
        let h = m->Hash_0;
        let s = es@;
        if s.len() == 1 {
            assert(h.dom() =~= Set::empty().insert(s[0].0@)) by {
                assert forall|k: Seq<char>| h.dom().contains(k) implies k == s[0].0@ by {
                    let i = choose|i: int| 0 <= i < s.len() && (#[trigger] s[i]).0@ == k;
                }
                assert(h.dom().contains(s[0].0@));
            }
            let k = choose|k: Seq<char>| h.dom() == Set::empty().insert(k);
            assert(h.dom().contains(k));
            assert(k == s[0].0@);
            assert(denotes(s[0].1, h[s[0].0@], (d - 1) as nat));
        } else {
            if exists|k: Seq<char>| h.dom() == Set::empty().insert(k) {
                let k = choose|k: Seq<char>| h.dom() == Set::empty().insert(k);
                if s.len() == 0 {
                    assert(h.dom().contains(k));
                    let i = choose|i: int| 0 <= i < s.len() && (#[trigger] s[i]).0@ == k;
                } else {
                    assert(h.dom().contains(s[0].0@));
                    assert(h.dom().contains(s[1].0@));
                    assert(s[0].0@ != s[1].0@);
                }
            }
        }
    }
}

/// Decoding the first `n` entries of a `default_scope` map with distinct
/// keys: it succeeds when each known key's value does, and then holds each
/// key's value.
proof fn lemma_scope_fold(es: Seq<(String, FrontValue)>, n: int)
    requires
        0 <= n <= es.len(),
        keys_distinct(es),
    ensures
        scope_fields(es, n) is Ok <==> forall|i: int|
            0 <= i < n ==> scope_entry_ok(#[trigger] es[i]),
        scope_fields(es, n) matches Ok(acc) ==> (acc.includes == list_of(
            entry_for(es, "include"@, n),
        ) && acc.excludes == list_of(entry_for(es, "exclude"@, n))),
    decreases n,
{
    reveal_strlit("include");
    reveal_strlit("exclude");
    if n > 0 {
        lemma_scope_fold(es, n - 1);
        assert("include"@[0] != "exclude"@[0]);
        let k = es[n - 1].0@;
        assert forall|i: int| 0 <= i < n - 1 implies (#[trigger] es[i]).0@ != k by {
            assert(es[i].0@ != es[n - 1].0@);
        }
        lemma_entry_for(es, k, n - 1);
        assert(entry_for(es, k, n - 1) is None);
        assert(entry_for(es, k, n) == Some(es[n - 1].1));
        if k != "include"@ {
            assert(entry_for(es, "include"@, n) == entry_for(es, "include"@, n - 1));
        }
        if k != "exclude"@ {
            assert(entry_for(es, "exclude"@, n) == entry_for(es, "exclude"@, n - 1));
        }
        if let Ok(acc) = scope_fields(es, n - 1) {
            let v = es[n - 1].1;
            assert(scope_fields(es, n) == scope_step(acc, k, v));
            if k == "include"@ {
                assert(scope_field(k) == Some(Field::Include));
                assert(acc.includes is None);
            } else if k == "exclude"@ {
                assert(scope_field(k) == Some(Field::Exclude));
                assert(acc.excludes is None);
            } else {
                assert(scope_field(k) is None);
            }
            if let Ok(acc2) = scope_fields(es, n) {
                assert(acc2.includes == list_of(entry_for(es, "include"@, n)));
                assert(acc2.excludes == list_of(entry_for(es, "exclude"@, n)));
            }
        }
    }
}


/// A list field of a map reads as the model's field: present and valid,
/// absent, or (when invalid) not at all.
proof fn lemma_list_field_model(v: FrontValue, h: Map<Seq<char>, YamlModel>, key: Seq<char>, d: nat)
    requires
        d > 2,
        v is Hash,
        denotes(v, YamlModel::Hash(h), d),
    ensures
        list_of(entry_for(v->Hash_0@, key, v->Hash_0@.len() as int)) == (if h.dom().contains(key) {
            model_string_list(h[key])
        } else {
            None
        }),
{
    lemma_entry_model(v, h, key, d);
    if let Some(w) = entry_for(v->Hash_0@, key, v->Hash_0@.len() as int) {
        lemma_string_list_model(w, h[key], (d - 1) as nat);
    }
}

/// The entry at `i` is the one `entry_for` finds for its key.
pub proof fn lemma_entry_at(es: Seq<(String, FrontValue)>, i: int)
    requires
        0 <= i < es.len(),
        keys_distinct(es),
    ensures
        entry_for(es, es[i].0@, es.len() as int) == Some(es[i].1),
{
    lemma_entry_for(es, es[i].0@, es.len() as int);
}

/// A `default_scope` value reads as the scope it stands for.
proof fn lemma_scope_model(v: FrontValue, m: YamlModel, d: nat)
    requires
        d > 2,
        denotes(v, m, d),
    ensures
        ok_of(decode_scope(v)) == model_scope(m),
{
    reveal_strlit("include");
    reveal_strlit("exclude");
    if let FrontValue::Hash(vs) = v {
        let es = vs@;
        let h = m->Hash_0;
        lemma_scope_fold(es, es.len() as int);
        lemma_list_field_model(v, h, "include"@, d);
        lemma_list_field_model(v, h, "exclude"@, d);
        let inc_ok = model_list_field(h, "include"@) is Some;
        let exc_ok = model_list_field(h, "exclude"@) is Some;
        assert((forall|i: int| 0 <= i < es.len() ==> scope_entry_ok(#[trigger] es[i])) <==> (inc_ok
            && exc_ok)) by {
            if forall|i: int| 0 <= i < es.len() ==> scope_entry_ok(#[trigger] es[i]) {
                if h.dom().contains("include"@) {
                    let i = choose|i: int| 0 <= i < es.len() && (#[trigger] es[i]).0@ == "include"@;
                    assert(scope_entry_ok(es[i]));
                    lemma_entry_at(es, i);
                }
                if h.dom().contains("exclude"@) {
                    let i = choose|i: int| 0 <= i < es.len() && (#[trigger] es[i]).0@ == "exclude"@;
                    assert(scope_entry_ok(es[i]));
                    lemma_entry_at(es, i);
                }
            }
            if inc_ok && exc_ok {
                assert forall|i: int| 0 <= i < es.len() implies scope_entry_ok(#[trigger] es[i]) by {
                    lemma_entry_at(es, i);
                    assert(h.dom().contains(es[i].0@));
                }
            }
        }
    }
}


/// Whether an entry of the header map decodes.
pub open spec fn meta_entry_ok(e: (String, FrontValue)) -> bool {
    match meta_field(e.0@) {
        Some(Field::Name) => decode_string(e.1) is Ok,
        Some(Field::Mode) => decode_mode(e.1) is Ok,
        Some(Field::Kind) => decode_kind(e.1) is Ok,
        Some(Field::DefaultScope) => decode_scope(e.1) is Ok,
        Some(_) => decode_string_list(e.1) is Ok,
        None => true,
    }
}

/// A string field's decoded value, if present and valid.
pub open spec fn name_of(o: Option<FrontValue>) -> Option<Seq<char>> {
    match o {
        Some(v) => ok_of(decode_string(v)),
        None => None,
    }
}

/// A `mode` field's decoded value, if present and valid.
pub open spec fn mode_of(o: Option<FrontValue>) -> Option<Mode> {
    match o {
        Some(v) => ok_of(decode_mode(v)),
        None => None,
    }
}

/// A `kind` field's decoded value, if present and valid.
pub open spec fn kind_of(o: Option<FrontValue>) -> Option<Kind> {
    match o {
        Some(v) => ok_of(decode_kind(v)),
        None => None,
    }
}

/// A `default_scope` field's decoded value, if present and valid.
pub open spec fn scope_of(o: Option<FrontValue>) -> Option<Option<ScopeModel>> {
    match o {
        Some(v) => ok_of(decode_scope(v)),
        None => None,
    }
}

proof fn lemma_header_keys_differ()
    ensures
        "name"@ != "mode"@,
        "name"@ != "kind"@,
        "mode"@ != "kind"@,
        "name"@ != "default_scope"@,
        "name"@ != "deterministic_checks"@,
        "mode"@ != "default_scope"@,
        "mode"@ != "deterministic_checks"@,
        "kind"@ != "default_scope"@,
        "kind"@ != "deterministic_checks"@,
        "default_scope"@ != "deterministic_checks"@,
{
    reveal_strlit("name");
    reveal_strlit("mode");
    reveal_strlit("kind");
    reveal_strlit("default_scope");
    reveal_strlit("deterministic_checks");
    assert("name"@[0] != "mode"@[0]);
    assert("name"@[0] != "kind"@[0]);
    assert("mode"@[0] != "kind"@[0]);
    assert("default_scope"@.len() != "deterministic_checks"@.len());
}

/// Decoding the first `n` entries of a header map with distinct keys: it
/// succeeds when each known key's value does, and then holds each key's
/// value.
proof fn lemma_meta_fold(es: Seq<(String, FrontValue)>, n: int)
    requires
        0 <= n <= es.len(),
        keys_distinct(es),
    ensures
        meta_fields(es, n) is Ok <==> forall|i: int| 0 <= i < n ==> meta_entry_ok(#[trigger] es[i]),
        meta_fields(es, n) matches Ok(acc) ==> ({
            &&& acc.name == name_of(entry_for(es, "name"@, n))
            &&& acc.mode == mode_of(entry_for(es, "mode"@, n))
            &&& acc.kind == kind_of(entry_for(es, "kind"@, n))
            &&& acc.scope == scope_of(entry_for(es, "default_scope"@, n))
            &&& acc.checks == list_of(entry_for(es, "deterministic_checks"@, n))
        }),
    decreases n,
{
    if n > 0 {
        lemma_meta_fold(es, n - 1);
        lemma_header_keys_differ();
        let k = es[n - 1].0@;
        assert forall|i: int| 0 <= i < n - 1 implies (#[trigger] es[i]).0@ != k by {
            assert(es[i].0@ != es[n - 1].0@);
        }
        lemma_entry_for(es, k, n - 1);
        assert(entry_for(es, k, n - 1) is None);
        assert(entry_for(es, k, n) == Some(es[n - 1].1));
        if k != "name"@ {
            assert(entry_for(es, "name"@, n) == entry_for(es, "name"@, n - 1));
        }
        if k != "mode"@ {
            assert(entry_for(es, "mode"@, n) == entry_for(es, "mode"@, n - 1));
        }
        if k != "kind"@ {
            assert(entry_for(es, "kind"@, n) == entry_for(es, "kind"@, n - 1));
        }
        if k != "default_scope"@ {
            assert(entry_for(es, "default_scope"@, n) == entry_for(es, "default_scope"@, n - 1));
        }
        if k != "deterministic_checks"@ {
            assert(entry_for(es, "deterministic_checks"@, n) == entry_for(
                es,
                "deterministic_checks"@,
                n - 1,
            ));
        }
        if let Ok(acc) = meta_fields(es, n - 1) {
            assert(meta_fields(es, n) == meta_step(acc, k, es[n - 1].1));
        }
    }
}

/// A header map reads as the header it stands for: decoding succeeds
/// exactly when the parsed value is a valid header, and gives that header.
/// Which error a bad header gives may depend on the order of its entries;
/// whether it fails does not.
pub proof fn lemma_header_model(v: FrontValue, m: YamlModel, d: nat)
    requires
        d > 3,
        denotes(v, m, d),
    ensures
        ok_of(decode_meta_spec(v)) == header_of(m),
{
    lemma_header_keys_differ();
    if let FrontValue::Hash(vs) = v {
        let es = vs@;
        let h = m->Hash_0;
        let n = es.len() as int;
        lemma_meta_fold(es, n);
        lemma_entry_model(v, h, "name"@, d);
        lemma_entry_model(v, h, "mode"@, d);
        lemma_entry_model(v, h, "kind"@, d);
        lemma_entry_model(v, h, "default_scope"@, d);
        lemma_list_field_model(v, h, "deterministic_checks"@, d);
        if let Some(w) = entry_for(es, "name"@, n) {
            lemma_string_model(w, h["name"@], (d - 1) as nat);
        }
        if let Some(w) = entry_for(es, "mode"@, n) {
            lemma_variant_model(w, h["mode"@], (d - 1) as nat, |s: Seq<char>| mode_named(s), VariantOf::Mode);
        }
        if let Some(w) = entry_for(es, "kind"@, n) {
            lemma_variant_model(w, h["kind"@], (d - 1) as nat, |s: Seq<char>| kind_named(s), VariantOf::Kind);
        }
        if let Some(w) = entry_for(es, "default_scope"@, n) {
            lemma_scope_model(w, h["default_scope"@], (d - 1) as nat);
        }
        let all_ok = forall|i: int| 0 <= i < n ==> meta_entry_ok(#[trigger] es[i]);
        if !all_ok {
            let i = choose|i: int| 0 <= i < n && !meta_entry_ok(#[trigger] es[i]);
            lemma_entry_at(es, i);
            assert(header_of(m) is None);
        } else {
            if h.dom().contains("default_scope"@) {
                let i = choose|i: int| 0 <= i < n && (#[trigger] es[i]).0@ == "default_scope"@;
                lemma_entry_at(es, i);
                assert(meta_entry_ok(es[i]));
            }
            if h.dom().contains("deterministic_checks"@) {
                let i = choose|i: int| 0 <= i < n && (#[trigger] es[i]).0@ == "deterministic_checks"@;
                lemma_entry_at(es, i);
                assert(meta_entry_ok(es[i]));
            }
        }
    }
}

/// Whether an entry of a `default_scope` map decodes.
pub open spec fn scope_entry_ok(e: (String, FrontValue)) -> bool {
    match scope_field(e.0@) {
        Some(_) => decode_string_list(e.1) is Ok,
        None => true,
    }
}

/// A list field's decoded value, if present and valid.
pub open spec fn list_of(o: Option<FrontValue>) -> Option<Seq<Seq<char>>> {
    match o {
        Some(v) => ok_of(decode_string_list(v)),
        None => None,
    }
}

// ---------------------------------------------------------------------------
// The decoder
// ---------------------------------------------------------------------------
/// A scope as its model, if present.
pub open spec fn scope_view(o: Option<DefaultScope>) -> Option<ScopeModel> {
    match o {
        Some(d) => Some(d@),
        None => None,
    }
}

fn decode_string_exec(v: &FrontValue) -> (r: Result<String, MetaError>)
    ensures
        match r {
            Ok(s) => decode_string(*v) == Ok::<Seq<char>, MetaFault>(s@),
            Err(e) => decode_string(*v) == Err::<Seq<char>, MetaFault>(e@),
        },
{
    match v {
        FrontValue::Str(s) => Ok(s.clone()),
        _ => Err(MetaError::Type(Expected::Str)),
    }
}

pub(crate) fn decode_string_list_exec(v: &FrontValue) -> (r: Result<Vec<String>, MetaError>)
    ensures
        match r {
            Ok(l) => decode_string_list(*v) == Ok::<Seq<Seq<char>>, MetaFault>(views(l@)),
            Err(e) => decode_string_list(*v) == Err::<Seq<Seq<char>>, MetaFault>(e@),
        },
{
    match v {
        FrontValue::List(items) => {
            let mut out: Vec<String> = Vec::new();
            let mut i: usize = 0;
            proof {
                assert(views(out@) =~= Seq::<Seq<char>>::empty());
            }
            while i < items.len()
                invariant
                    i <= items.len(),
                    *v == FrontValue::List(*items),
                    decode_strings(items@, i as int) == Ok::<Seq<Seq<char>>, MetaFault>(
                        views(out@),
                    ),
                decreases items.len() - i,
            {
                match decode_string_exec(&items[i]) {
                    Ok(s) => {
                        let ghost before = views(out@);
                        out.push(s);
                        proof {
                            assert(views(out@) =~= before.push(s@));
                        }
                    },
                    Err(e) => {
                        proof {
                            lemma_strings_error_sticks(items@, i + 1, items@.len() as int);
                        }
                        return Err(e);
                    },
                }
                i = i + 1;
            }
            Ok(out)
        },
        _ => Err(MetaError::Type(Expected::Array)),
    }
}

fn mode_named_exec(s: &str) -> (m: Option<Mode>)
    ensures
        m == mode_named(s@),
{
    if crate::strings::str_eq(s, "trusted") {
        Some(Mode::Trusted)
    } else if crate::strings::str_eq(s, "untrusted") {
        Some(Mode::Untrusted)
    } else {
        None
    }
}

fn kind_named_exec(s: &str) -> (k: Option<Kind>)
    ensures
        k == kind_named(s@),
{
    if crate::strings::str_eq(s, "prompt") {
        Some(Kind::Prompt)
    } else if crate::strings::str_eq(s, "deterministic") {
        Some(Kind::Deterministic)
    } else if crate::strings::str_eq(s, "hybrid") {
        Some(Kind::Hybrid)
    } else {
        None
    }
}

fn decode_mode_exec(v: &FrontValue) -> (r: Result<Mode, MetaError>)
    ensures
        match r {
            Ok(m) => decode_mode(*v) == Ok::<Mode, MetaFault>(m),
            Err(e) => decode_mode(*v) == Err::<Mode, MetaFault>(e@),
        },
{
    match v {
        FrontValue::Str(s) => match mode_named_exec(s.as_str()) {
            Some(m) => Ok(m),
            None => Err(MetaError::UnknownVariant(s.clone(), VariantOf::Mode)),
        },
        FrontValue::Hash(es) => {
            if es.len() == 1 {
                match mode_named_exec(es[0].0.as_str()) {
                    None => Err(MetaError::UnknownVariant(es[0].0.clone(), VariantOf::Mode)),
                    Some(m) => match es[0].1 {
                        FrontValue::Null => Ok(m),
                        _ => Err(MetaError::Type(Expected::NullForUnit)),
                    },
                }
            } else {
                Err(MetaError::Type(Expected::SingleKeyMap))
            }
        },
        _ => Err(MetaError::Type(Expected::StringOrSingleKeyMap)),
    }
}

fn decode_kind_exec(v: &FrontValue) -> (r: Result<Kind, MetaError>)
    ensures
        match r {
            Ok(k) => decode_kind(*v) == Ok::<Kind, MetaFault>(k),
            Err(e) => decode_kind(*v) == Err::<Kind, MetaFault>(e@),
        },
{
    match v {
        FrontValue::Str(s) => match kind_named_exec(s.as_str()) {
            Some(k) => Ok(k),
            None => Err(MetaError::UnknownVariant(s.clone(), VariantOf::Kind)),
        },
        FrontValue::Hash(es) => {
            if es.len() == 1 {
                match kind_named_exec(es[0].0.as_str()) {
                    None => Err(MetaError::UnknownVariant(es[0].0.clone(), VariantOf::Kind)),
                    Some(k) => match es[0].1 {
                        FrontValue::Null => Ok(k),
                        _ => Err(MetaError::Type(Expected::NullForUnit)),
                    },
                }
            } else {
                Err(MetaError::Type(Expected::SingleKeyMap))
            }
        },
        _ => Err(MetaError::Type(Expected::StringOrSingleKeyMap)),
    }
}

fn scope_field_exec(k: &str) -> (f: Option<Field>)
    ensures
        f == scope_field(k@),
{
    if crate::strings::str_eq(k, "include") {
        Some(Field::Include)
    } else if crate::strings::str_eq(k, "exclude") {
        Some(Field::Exclude)
    } else {
        None
    }
}

fn meta_field_exec(k: &str) -> (f: Option<Field>)
    ensures
        f == meta_field(k@),
{
    if crate::strings::str_eq(k, "name") {
        Some(Field::Name)
    } else if crate::strings::str_eq(k, "mode") {
        Some(Field::Mode)
    } else if crate::strings::str_eq(k, "kind") {
        Some(Field::Kind)
    } else if crate::strings::str_eq(k, "default_scope") {
        Some(Field::DefaultScope)
    } else if crate::strings::str_eq(k, "deterministic_checks") {
        Some(Field::DeterministicChecks)
    } else {
        None
    }
}

/// A list as its views, if present.
pub open spec fn list_view(o: Option<Vec<String>>) -> Option<Seq<Seq<char>>> {
    match o {
        Some(l) => Some(views(l@)),
        None => None,
    }
}

fn decode_scope_exec(v: &FrontValue) -> (r: Result<Option<DefaultScope>, MetaError>)
    ensures
        match r {
            Ok(d) => decode_scope(*v) == Ok::<Option<ScopeModel>, MetaFault>(scope_view(d)),
            Err(e) => decode_scope(*v) == Err::<Option<ScopeModel>, MetaFault>(e@),
        },
{
    match v {
        FrontValue::Null => Ok(None),
        FrontValue::Hash(es) => {
            let mut inc: Option<Vec<String>> = None;
            let mut exc: Option<Vec<String>> = None;
            let mut i: usize = 0;
            while i < es.len()
                invariant
                    i <= es.len(),
                    *v == FrontValue::Hash(*es),
                    scope_fields(es@, i as int) == Ok::<ScopeAcc, MetaFault>(
                        ScopeAcc { includes: list_view(inc), excludes: list_view(exc) },
                    ),
                decreases es.len() - i,
            {
                match scope_field_exec(es[i].0.as_str()) {
                    Some(Field::Include) => {
                        if inc.is_some() {
                            proof {
                                lemma_scope_error_sticks(es@, i + 1, es@.len() as int);
                            }
                            return Err(MetaError::Duplicate(Field::Include));
                        }
                        match decode_string_list_exec(&es[i].1) {
                            Ok(l) => {
                                inc = Some(l);
                            },
                            Err(e) => {
                                proof {
                                    lemma_scope_error_sticks(es@, i + 1, es@.len() as int);
                                }
                                return Err(e);
                            },
                        }
                    },
                    Some(_) => {
                        if exc.is_some() {
                            proof {
                                lemma_scope_error_sticks(es@, i + 1, es@.len() as int);
                            }
                            return Err(MetaError::Duplicate(Field::Exclude));
                        }
                        match decode_string_list_exec(&es[i].1) {
                            Ok(l) => {
                                exc = Some(l);
                            },
                            Err(e) => {
                                proof {
                                    lemma_scope_error_sticks(es@, i + 1, es@.len() as int);
                                }
                                return Err(e);
                            },
                        }
                    },
                    None => {},
                }
                i = i + 1;
            }
            let includes = match inc {
                Some(l) => l,
                None => Vec::new(),
            };
            let exclude = match exc {
                Some(l) => l,
                None => Vec::new(),
            };
            proof {
                assert(views(includes@) == or_empty(list_view(inc)));
                assert(views(exclude@) == or_empty(list_view(exc)));
            }
            Ok(Some(DefaultScope { includes, exclude }))
        },
        _ => Err(MetaError::Type(Expected::HashMap)),
    }
}

/// The header fields read so far, as executable values.
struct MetaFields {
    name: Option<String>,
    mode: Option<Mode>,
    kind: Option<Kind>,
    scope: Option<Option<DefaultScope>>,
    checks: Option<Vec<String>>,
}

impl View for MetaFields {
    type V = MetaAcc;

    closed spec fn view(&self) -> MetaAcc {
        MetaAcc {
            name: match self.name {
                Some(s) => Some(s@),
                None => None,
            },
            mode: self.mode,
            kind: self.kind,
            scope: match self.scope {
                Some(o) => Some(scope_view(o)),
                None => None,
            },
            checks: list_view(self.checks),
        }
    }
}

/// Decodes a front-matter value into a spec header, reading the map's
/// entries in order. The result is exactly what [`decode_meta_spec`] says.
pub fn decode_meta(v: &FrontValue) -> (r: Result<SpecMeta, MetaError>)
    ensures
        match r {
            Ok(m) => decode_meta_spec(*v) == Ok::<MetaModel, MetaFault>(m@),
            Err(e) => decode_meta_spec(*v) == Err::<MetaModel, MetaFault>(e@),
        },
{
    let es = match v {
        FrontValue::Hash(es) => es,
        _ => {
            return Err(MetaError::Type(Expected::HashMap));
        },
    };
    let mut acc = MetaFields { name: None, mode: None, kind: None, scope: None, checks: None };
    let mut i: usize = 0;
    while i < es.len()
        invariant
            i <= es.len(),
            *v == FrontValue::Hash(*es),
            meta_fields(es@, i as int) == Ok::<MetaAcc, MetaFault>(acc@),
        decreases es.len() - i,
    {
        match meta_field_exec(es[i].0.as_str()) {
            Some(Field::Name) => {
                if acc.name.is_some() {
                    proof {
                        lemma_meta_error_sticks(es@, i + 1, es@.len() as int);
                    }
                    return Err(MetaError::Duplicate(Field::Name));
                }
                match decode_string_exec(&es[i].1) {
                    Ok(s) => {
                        acc.name = Some(s);
                    },
                    Err(e) => {
                        proof {
                        lemma_meta_error_sticks(es@, i + 1, es@.len() as int);
                    }
                    return Err(e);
                    },
                }
            },
            Some(Field::Mode) => {
                if acc.mode.is_some() {
                    proof {
                        lemma_meta_error_sticks(es@, i + 1, es@.len() as int);
                    }
                    return Err(MetaError::Duplicate(Field::Mode));
                }
                match decode_mode_exec(&es[i].1) {
                    Ok(m) => {
                        acc.mode = Some(m);
                    },
                    Err(e) => {
                        proof {
                        lemma_meta_error_sticks(es@, i + 1, es@.len() as int);
                    }
                    return Err(e);
                    },
                }
            },
            Some(Field::Kind) => {
                if acc.kind.is_some() {
                    proof {
                        lemma_meta_error_sticks(es@, i + 1, es@.len() as int);
                    }
                    return Err(MetaError::Duplicate(Field::Kind));
                }
                match decode_kind_exec(&es[i].1) {
                    Ok(k) => {
                        acc.kind = Some(k);
                    },
                    Err(e) => {
                        proof {
                        lemma_meta_error_sticks(es@, i + 1, es@.len() as int);
                    }
                    return Err(e);
                    },
                }
            },
            Some(Field::DefaultScope) => {
                if acc.scope.is_some() {
                    proof {
                        lemma_meta_error_sticks(es@, i + 1, es@.len() as int);
                    }
                    return Err(MetaError::Duplicate(Field::DefaultScope));
                }
                match decode_scope_exec(&es[i].1) {
                    Ok(d) => {
                        acc.scope = Some(d);
                    },
                    Err(e) => {
                        proof {
                        lemma_meta_error_sticks(es@, i + 1, es@.len() as int);
                    }
                    return Err(e);
                    },
                }
            },
            Some(_) => {
                if acc.checks.is_some() {
                    proof {
                        lemma_meta_error_sticks(es@, i + 1, es@.len() as int);
                    }
                    return Err(MetaError::Duplicate(Field::DeterministicChecks));
                }
                match decode_string_list_exec(&es[i].1) {
                    Ok(l) => {
                        acc.checks = Some(l);
                    },
                    Err(e) => {
                        proof {
                        lemma_meta_error_sticks(es@, i + 1, es@.len() as int);
                    }
                    return Err(e);
                    },
                }
            },
            None => {},
        }
        i = i + 1;
    }
    let name = match acc.name {
        Some(n) => n,
        None => {
            return Err(MetaError::Missing(Field::Name));
        },
    };
    let mode = match acc.mode {
        Some(m) => m,
        None => {
            return Err(MetaError::Missing(Field::Mode));
        },
    };
    let kind = match acc.kind {
        Some(k) => k,
        None => {
            return Err(MetaError::Missing(Field::Kind));
        },
    };
    let default_scope = match acc.scope {
        Some(s) => s,
        None => None,
    };
    let deterministic_checks = match acc.checks {
        Some(l) => l,
        None => Vec::new(),
    };
    proof {
        assert(views(deterministic_checks@) == or_empty(list_view(acc.checks)));
    }
    Ok(SpecMeta { name, mode, kind, default_scope, deterministic_checks })
}

// ---------------------------------------------------------------------------
// Errors and their messages
// ---------------------------------------------------------------------------
/// Why a spec document could not be read.
#[derive(Clone, Debug)]
pub enum SpecError {
    /// gray_matter could not parse the document (e.g. malformed YAML).
    FrontMatter { context: String, detail: String },
    /// The document has no (non-empty) front-matter block.
    MissingFrontMatter,
    /// The front matter is not a valid spec header.
    Meta { context: String, fault: MetaError },
}

/// How the expected shape is spelled in messages.
pub open spec fn expected_text(e: Expected) -> Seq<char> {
    match e {
        Expected::Str => "string"@,
        Expected::Array => "array"@,
        Expected::HashMap => "hash map"@,
        Expected::NullForUnit => "null for unit variant"@,
        Expected::SingleKeyMap => "single-key map for enum"@,
        Expected::StringOrSingleKeyMap => "string or single-key map for enum"@,
    }
}

/// A field's key.
pub open spec fn field_text(f: Field) -> Seq<char> {
    match f {
        Field::Name => "name"@,
        Field::Mode => "mode"@,
        Field::Kind => "kind"@,
        Field::DefaultScope => "default_scope"@,
        Field::DeterministicChecks => "deterministic_checks"@,
        Field::Include => "include"@,
        Field::Exclude => "exclude"@,
    }
}

/// The accepted variant names, as listed in messages.
pub open spec fn variants_text(of: VariantOf) -> Seq<char> {
    match of {
        VariantOf::Mode => "`trusted` or `untrusted`"@,
        VariantOf::Kind => "one of `prompt`, `deterministic`, `hybrid`"@,
    }
}

/// The message for a header fault.
pub open spec fn fault_message(f: MetaFault) -> Seq<char> {
    match f {
        MetaFault::Type(e) => "Type error, expected: "@ + expected_text(e),
        MetaFault::Missing(fl) => "Deserialize error: missing field `"@ + field_text(fl) + "`"@,
        MetaFault::Duplicate(fl) => "Deserialize error: duplicate field `"@ + field_text(fl)
            + "`"@,
        MetaFault::UnknownVariant(found, of) => "Deserialize error: unknown variant `"@ + found
            + "`, expected "@ + variants_text(of),
    }
}

/// What a failed parse is reported as being about.
pub open spec fn context_of(source: SourceModel) -> Seq<char> {
    match source {
        SourceModel::Builtin(_) => "parsing builtin spec"@,
        SourceModel::Local(p) => "parsing spec at "@ + p,
        SourceModel::AdHoc(p) => "parsing spec at "@ + p,
    }
}

/// The message of a spec error.
pub open spec fn spec_error_message(e: SpecError) -> Seq<char> {
    match e {
        SpecError::FrontMatter { context, detail } => context@ + ": "@ + detail@,
        SpecError::MissingFrontMatter => "spec missing YAML frontmatter (expected `---`-delimited block at top of file)"@,
        SpecError::Meta { context, fault } => context@ + ": "@ + fault_message(fault@),
    }
}

fn expected_string(e: Expected) -> (s: String)
    ensures
        s@ == expected_text(e),
{
    match e {
        Expected::Str => String::from_str("string"),
        Expected::Array => String::from_str("array"),
        Expected::HashMap => String::from_str("hash map"),
        Expected::NullForUnit => String::from_str("null for unit variant"),
        Expected::SingleKeyMap => String::from_str("single-key map for enum"),
        Expected::StringOrSingleKeyMap => String::from_str("string or single-key map for enum"),
    }
}

fn field_string(f: Field) -> (s: String)
    ensures
        s@ == field_text(f),
{
    match f {
        Field::Name => String::from_str("name"),
        Field::Mode => String::from_str("mode"),
        Field::Kind => String::from_str("kind"),
        Field::DefaultScope => String::from_str("default_scope"),
        Field::DeterministicChecks => String::from_str("deterministic_checks"),
        Field::Include => String::from_str("include"),
        Field::Exclude => String::from_str("exclude"),
    }
}

impl MetaError {
    /// The message gray_matter's error would display for this fault.
    pub fn message(&self) -> (m: String)
        ensures
            m@ == fault_message(self@),
    {
        match self {
            MetaError::Type(e) => {
                let mut m = String::from_str("Type error, expected: ");
                let t = expected_string(*e);
                m.append(t.as_str());
                m
            },
            MetaError::Missing(f) => {
                let mut m = String::from_str("Deserialize error: missing field `");
                let t = field_string(*f);
                m.append(t.as_str());
                m.append("`");
                m
            },
            MetaError::Duplicate(f) => {
                let mut m = String::from_str("Deserialize error: duplicate field `");
                let t = field_string(*f);
                m.append(t.as_str());
                m.append("`");
                m
            },
            MetaError::UnknownVariant(found, of) => {
                let mut m = String::from_str("Deserialize error: unknown variant `");
                m.append(found.as_str());
                m.append("`, expected ");
                match of {
                    VariantOf::Mode => m.append("`trusted` or `untrusted`"),
                    VariantOf::Kind => m.append("one of `prompt`, `deterministic`, `hybrid`"),
                }
                m
            },
        }
    }
}

impl SpecError {
    /// The full message, context first (as `{:#}` shows an error chain).
    pub fn message(&self) -> (m: String)
        ensures
            m@ == spec_error_message(*self),
    {
        match self {
            SpecError::FrontMatter { context, detail } => {
                let mut m = context.clone();
                m.append(": ");
                m.append(detail.as_str());
                m
            },
            SpecError::MissingFrontMatter => String::from_str(
                "spec missing YAML frontmatter (expected `---`-delimited block at top of file)",
            ),
            SpecError::Meta { context, fault } => {
                let mut m = context.clone();
                m.append(": ");
                let t = fault.message();
                m.append(t.as_str());
                m
            },
        }
    }
}

/// The context line for errors while parsing a spec from `source`.
pub fn context_for(source: &SpecSource) -> (c: String)
    ensures
        c@ == context_of(source@),
{
    match source {
        SpecSource::Builtin(_) => String::from_str("parsing builtin spec"),
        SpecSource::Local(p) => crate::strings::concat2("parsing spec at ", p.as_str()),
        SpecSource::AdHoc(p) => crate::strings::concat2("parsing spec at ", p.as_str()),
    }
}

// ---------------------------------------------------------------------------
// Parsing
// ---------------------------------------------------------------------------
/// Builds a spec from a document already split into front matter and
/// content: no front matter is an error; otherwise the header is decoded and
/// the content becomes the body.
pub fn spec_from_front_matter(fm: FrontMatter, source: SpecSource) -> (r: Result<Spec, SpecError>)
    ensures
        fm.data is None ==> r matches Err(SpecError::MissingFrontMatter),
        fm.data matches Some(v) ==> match decode_meta_spec(v) {
            Ok(m) => r matches Ok(s) && s.meta@ == m && s.body@ == fm.content@ && s.source@
                == source@,
            Err(f) => r matches Err(SpecError::Meta { context, fault }) && context@ == context_of(
                source@,
            ) && fault@ == f,
        },
{
    match fm.data {
        None => Err(SpecError::MissingFrontMatter),
        Some(v) => match decode_meta(&v) {
            Ok(meta) => Ok(Spec { meta, body: fm.content, source }),
            Err(fault) => {
                let context = context_for(&source);
                Err(SpecError::Meta { context, fault })
            },
        },
    }
}

/// What parsing `text` from `source` gives: gray_matter's failure with its
/// message; no front matter; or, with front matter, the spec whose header is
/// the one the front matter stands for, whose body is gray_matter's content
/// and whose source is `source`, or, when the front matter is not a valid
/// header, the fault that decoding its entries (in the order gray_matter
/// yields them) reports.
pub open spec fn parsed_as(text: Seq<char>, source: SourceModel, r: Result<Spec, SpecError>) -> bool {
    match gray_matter_yaml(text) {
        Err(m) => r matches Err(SpecError::FrontMatter { context, detail }) && (context@
            == context_of(source) && detail@ == m),
        Ok((None, _)) => r matches Err(SpecError::MissingFrontMatter),
        Ok((Some(d), content)) => match header_of(d) {
            Some(meta) => r matches Ok(s) && (s.meta@ == meta && s.body@ == content && s.source@
                == source),
            None => r matches Err(SpecError::Meta { context, fault }) && (context@ == context_of(
                source,
            ) && exists|v: FrontValue|
                denotes(v, d, FRONT_DEPTH as nat) && #[trigger] decode_meta_spec(v) == Err::<
                    MetaModel,
                    MetaFault,
                >(fault@)),
        },
    }
}

/// Parses a spec document: YAML front matter (the header) and a markdown
/// body. gray_matter splits the document; a parse failure is reported with
/// its message, a document without front matter is refused, and a header
/// that does not decode is reported with what is wrong with it.
pub fn parse(text: &str, source: SpecSource) -> (r: Result<Spec, SpecError>)
    ensures
        parsed_as(text@, source@, r),
{
    match split_front_matter(text) {
        Err(detail) => {
            let context = context_for(&source);
            Err(SpecError::FrontMatter { context, detail })
        },
        Ok(fm) => {
            let ghost data = fm.data;
            proof {
                if data is Some {
                    lemma_header_model(data->0, front_data(text@), FRONT_DEPTH as nat);
                }
            }
            let r = spec_from_front_matter(fm, source);
            proof {
                if data is Some {
                    if r matches Err(SpecError::Meta { .. }) {
                        assert(decode_meta_spec(data->0) == Err::<MetaModel, MetaFault>(
                            r->Err_0->fault@,
                        ));
                    }
                }
            }
            r
        },
    }
}

} // verus!
