//! YAML front matter, read with gray_matter and held as plain values.
//!
//! gray_matter finds the `---`-delimited block at the top of a document,
//! parses it as YAML and hands back the rest as the content. What the parsed
//! data stands for is a [`YamlModel`] (maps unordered), named as a function
//! of the text; `front_value` copies gray_matter's `Pod`, level by level,
//! into [`FrontValue`], a tree of plain values that the decoders read, and
//! proves that the copy stands for the model.
use gray_matter::engine::{Engine, YAML};
use gray_matter::{Matter, Pod};
use vstd::prelude::*;

verus! {

/// gray_matter's parsed-data type, carried through opaquely.
#[verifier::external_type_specification]
#[verifier::external_body]
pub struct ExPod(Pod);

/// A YAML value as a mathematical object: what a parsed document stands
/// for. A map is a `Map`, so the order in which a parser yields its entries
/// plays no part. A float's number is not kept (nothing here reads floats).
pub enum YamlModel {
    Null,
    Str(Seq<char>),
    Int(i64),
    Float,
    Bool(bool),
    List(Seq<YamlModel>),
    Hash(Map<Seq<char>, YamlModel>),
}

/// What gray_matter's YAML `Matter::parse` yields for a document: `Ok` with
/// the parsed front matter (`None` when there is no non-empty block) and
/// the remaining content, or `Err` with the error's message.
pub uninterp spec fn gray_matter_yaml(text: Seq<char>) -> Result<(Option<YamlModel>, Seq<char>), Seq<char>>;

/// What gray_matter's YAML engine (`<YAML as Engine>::parse`) yields for a
/// whole YAML document: its first document (`Null` when there is none), or
/// `Err` with the error's message.
pub uninterp spec fn yaml_document(text: Seq<char>) -> Result<YamlModel, Seq<char>>;

/// The front matter gray_matter finds in `text`, when parsing succeeds and
/// there is some.
pub open spec fn front_data(text: Seq<char>) -> YamlModel {
    match gray_matter_yaml(text) {
        Ok((Some(d), _)) => d,
        _ => YamlModel::Null,
    }
}

/// The document gray_matter's YAML engine reads from `text`, when it can.
pub open spec fn yaml_data(text: Seq<char>) -> YamlModel {
    match yaml_document(text) {
        Ok(d) => d,
        _ => YamlModel::Null,
    }
}

/// A parsed YAML value: gray_matter's `Pod`, with the value it stands for.
/// Only the calls into gray_matter below make one.
pub struct YamlNode {
    pod: Pod,
    model: Ghost<YamlModel>,
}

impl YamlNode {
    /// The value this node stands for.
    pub closed spec fn model(&self) -> YamlModel {
        self.model@
    }
}

/// Calls `Matter::<YAML>::new().parse::<Pod>(text)`.
///
/// The contract names the outcome (`gray_matter_yaml`): success or failure,
/// the parsed front matter and the content are fixed by the text.
#[verifier::external_body]
fn gray_matter_parse(text: &str) -> (r: Result<(Option<YamlNode>, String), String>)
    ensures
        match r {
            Ok((data, content)) => match gray_matter_yaml(text@) {
                Ok((d, c)) => c == content@ && match data {
                    Some(n) => d == Some(n.model()),
                    None => d is None,
                },
                Err(_) => false,
            },
            Err(msg) => gray_matter_yaml(text@) == Err::<(Option<YamlModel>, Seq<char>), Seq<char>>(msg@),
        },
{
    match Matter::<YAML>::new().parse::<Pod>(text) {
        Ok(parsed) => {
            let model = Ghost(front_data(text@));
            Ok((parsed.data.map(|pod| YamlNode { pod, model }), parsed.content))
        },
        Err(e) => Err(e.to_string()),
    }
}

/// Calls `<YAML as Engine>::parse(text)`: the outcome is named by
/// `yaml_document`.
#[verifier::external_body]
pub(crate) fn yaml_parse(text: &str) -> (r: Result<YamlNode, String>)
    ensures
        match r {
            Ok(n) => yaml_document(text@) == Ok::<YamlModel, Seq<char>>(n.model()),
            Err(msg) => yaml_document(text@) == Err::<YamlModel, Seq<char>>(msg@),
        },
{
    match <YAML as Engine>::parse(text) {
        Ok(pod) => Ok(YamlNode { pod, model: Ghost(yaml_data(text@)) }),
        Err(e) => Err(e.to_string()),
    }
}

/// One level of a parsed value: its variant, with the children still as
/// nodes.
pub enum PodNode {
    Null,
    Str(String),
    Int(i64),
    Float,
    Bool(bool),
    List(Vec<YamlNode>),
    Hash(Vec<(String, YamlNode)>),
}

/// No two entries share a key.
pub open spec fn keys_distinct<V>(es: Seq<(String, V)>) -> bool {
    forall|i: int, j: int| 0 <= i < j < es.len() ==> (#[trigger] es[i]).0@ != (#[trigger] es[j]).0@
}

/// The entries, keyed by their text, are exactly the map `h`.
pub open spec fn lists_map(es: Seq<(String, YamlNode)>, h: Map<Seq<char>, YamlModel>) -> bool {
    &&& keys_distinct(es)
    &&& forall|i: int|
        0 <= i < es.len() ==> h.dom().contains((#[trigger] es[i]).0@) && h[es[i].0@] == es[i].1.model()
    &&& forall|k: Seq<char>| #[trigger] h.dom().contains(k) ==> exists|i: int| 0 <= i < es.len() && (#[trigger] es[i]).0@ == k
}

/// `n` is one level of the value `m`.
pub open spec fn unfolds_to(m: YamlModel, n: PodNode) -> bool {
    match (m, n) {
        (YamlModel::Null, PodNode::Null) => true,
        (YamlModel::Str(s), PodNode::Str(t)) => t@ == s,
        (YamlModel::Int(i), PodNode::Int(j)) => i == j,
        (YamlModel::Float, PodNode::Float) => true,
        (YamlModel::Bool(b), PodNode::Bool(c)) => b == c,
        (YamlModel::List(ms), PodNode::List(ns)) => ns.len() == ms.len() && forall|i: int|
            0 <= i < ns.len() ==> (#[trigger] ns@[i]).model() == ms[i],
        (YamlModel::Hash(h), PodNode::Hash(es)) => lists_map(es@, h),
        _ => false,
    }
}

/// Tells apart the variants of gray_matter's `Pod`, moving their fields;
/// each child keeps the part of the value it stands for. A hash's entries
/// come in the order its `HashMap` yields them (its keys are distinct).
#[verifier::external_body]
fn pod_node(node: YamlNode) -> (r: PodNode)
    ensures
        unfolds_to(node.model(), r),
{
    let m = node.model;
    match node.pod {
        Pod::Null => PodNode::Null,
        Pod::String(s) => PodNode::Str(s),
        Pod::Integer(i) => PodNode::Int(i),
        Pod::Float(_) => PodNode::Float,
        Pod::Boolean(b) => PodNode::Bool(b),
        Pod::Array(items) => PodNode::List(items.into_iter().enumerate().map(|(i, pod)| YamlNode { pod, model: Ghost(m@->List_0[i as int]) }).collect()),
        Pod::Hash(map) => PodNode::Hash(map.into_iter().map(|(k, pod)| { let model = Ghost(m@->Hash_0[k@]); (k, YamlNode { pod, model }) }).collect()),
    }
}

/// A YAML value as plain data. `Deeper` stands for a value below the depth
/// that was copied; nothing in the spec schema reads that deep.
pub enum FrontValue {
    Null,
    Str(String),
    Int(i64),
    Float,
    Bool(bool),
    List(Vec<FrontValue>),
    Hash(Vec<(String, FrontValue)>),
    Deeper,
}

/// How many levels of front matter are copied: the spec schema reads a map
/// (level 0) whose values (1) may be maps (`default_scope`) or lists
/// (`deterministic_checks`), whose values (2) are lists of strings (3).
pub const FRONT_DEPTH: usize = 4;

/// `v` is the value `m`, copied down to `depth` levels: below that it is
/// `Deeper`; a map's entries have distinct keys and are exactly `m`'s.
pub open spec fn denotes(v: FrontValue, m: YamlModel, depth: nat) -> bool
    decreases depth,
{
    if depth == 0 {
        v is Deeper
    } else {
        match (v, m) {
            (FrontValue::Null, YamlModel::Null) => true,
            (FrontValue::Str(s), YamlModel::Str(t)) => s@ == t,
            (FrontValue::Int(i), YamlModel::Int(j)) => i == j,
            (FrontValue::Float, YamlModel::Float) => true,
            (FrontValue::Bool(b), YamlModel::Bool(c)) => b == c,
            (FrontValue::List(vs), YamlModel::List(ms)) => vs.len() == ms.len() && forall|i: int|
                0 <= i < vs.len() ==> denotes(#[trigger] vs@[i], ms[i], (depth - 1) as nat),
            (FrontValue::Hash(es), YamlModel::Hash(h)) => {
                &&& keys_distinct(es@)
                &&& forall|i: int|
                    0 <= i < es.len() ==> h.dom().contains((#[trigger] es@[i]).0@) && denotes(
                        es@[i].1,
                        h[es@[i].0@],
                        (depth - 1) as nat,
                    )
                &&& forall|k: Seq<char>|
                    #[trigger] h.dom().contains(k) ==> exists|i: int|
                        0 <= i < es.len() && (#[trigger] es@[i]).0@ == k
            },
            _ => false,
        }
    }
}

/// Copies `node` into a [`FrontValue`], down to `depth` levels.
pub fn front_value(node: YamlNode, depth: usize) -> (v: FrontValue)
    ensures
        denotes(v, node.model(), depth as nat),
    decreases depth,
{
    if depth == 0 {
        return FrontValue::Deeper;
    }
    let ghost m = node.model();
    match pod_node(node) {
        PodNode::Null => FrontValue::Null,
        PodNode::Str(s) => FrontValue::Str(s),
        PodNode::Int(i) => FrontValue::Int(i),
        PodNode::Float => FrontValue::Float,
        PodNode::Bool(b) => FrontValue::Bool(b),
        PodNode::List(items) => {
            let ghost ms = m->List_0;
            let ghost all = items@;
            let mut items = items;
            let mut out: Vec<FrontValue> = Vec::new();
            while items.len() > 0
                invariant
                    depth > 0,
                    all.len() == ms.len(),
                    forall|i: int| 0 <= i < all.len() ==> (#[trigger] all[i]).model() == ms[i],
                    out.len() + items.len() == all.len(),
                    items@ == all.subrange(out.len() as int, all.len() as int),
                    forall|i: int|
                        0 <= i < out.len() ==> denotes(#[trigger] out@[i], ms[i], (depth - 1) as nat),
                decreases items.len(),
            {
                let p = items.remove(0);
                proof {
                    assert(p == all[out.len() as int]);
                }
                out.push(front_value(p, depth - 1));
            }
            let v = FrontValue::List(out);
            proof {
                assert(m == YamlModel::List(ms));
                assert(denotes(v, m, depth as nat));
            }
            v
        },
        PodNode::Hash(entries) => {
            let ghost h = m->Hash_0;
            let ghost all = entries@;
            let mut entries = entries;
            let mut out: Vec<(String, FrontValue)> = Vec::new();
            while entries.len() > 0
                invariant
                    depth > 0,
                    lists_map(all, h),
                    out.len() + entries.len() == all.len(),
                    entries@ == all.subrange(out.len() as int, all.len() as int),
                    forall|i: int|
                        0 <= i < out.len() ==> (#[trigger] out@[i]).0@ == all[i].0@ && denotes(
                            out@[i].1,
                            h[all[i].0@],
                            (depth - 1) as nat,
                        ),
                decreases entries.len(),
            {
                let (k, p) = entries.remove(0);
                proof {
                    assert(all[out.len() as int] == (k, p));
                }
                out.push((k, front_value(p, depth - 1)));
            }
            proof {
                assert forall|i: int, j: int| 0 <= i < j < out.len() implies (#[trigger] out@[i]).0@
                    != (#[trigger] out@[j]).0@ by {
                    assert(all[i].0@ != all[j].0@);
                }
                assert forall|k: Seq<char>| #[trigger] h.dom().contains(k) implies exists|i: int|
                    0 <= i < out.len() && (#[trigger] out@[i]).0@ == k by {
                    let i = choose|i: int| 0 <= i < all.len() && (#[trigger] all[i]).0@ == k;
                    assert(out@[i].0@ == k);
                }
                assert(m == YamlModel::Hash(h));
                assert forall|i: int| 0 <= i < out.len() implies h.dom().contains(
                    (#[trigger] out@[i]).0@,
                ) && denotes(out@[i].1, h[out@[i].0@], (depth - 1) as nat) by {
                    assert(h.dom().contains(all[i].0@));
                }
            }
            let v = FrontValue::Hash(out);
            proof {
                assert(keys_distinct(out@));
                assert(forall|k: Seq<char>|
                    #[trigger] h.dom().contains(k) ==> exists|i: int|
                        0 <= i < out.len() && (#[trigger] out@[i]).0@ == k);
                assert(v->Hash_0 == out);
                assert(denotes(v, m, depth as nat));
            }
            v
        },
    }
}

/// A document split by gray_matter: the front matter (if any) and the rest.
pub struct FrontMatter {
    pub data: Option<FrontValue>,
    pub content: String,
}

/// Splits `text` into front matter and content with gray_matter's YAML
/// engine. On success, the content is the one gray_matter reports and the
/// data, if any, is the front matter it parsed (copied `FRONT_DEPTH` levels
/// deep); on failure, its message.
pub fn split_front_matter(text: &str) -> (r: Result<FrontMatter, String>)
    ensures
        match r {
            Ok(fm) => match gray_matter_yaml(text@) {
                Ok((d, c)) => c == fm.content@ && match fm.data {
                    Some(v) => d matches Some(m) && denotes(v, m, FRONT_DEPTH as nat),
                    None => d is None,
                },
                Err(_) => false,
            },
            Err(msg) => gray_matter_yaml(text@) == Err::<(Option<YamlModel>, Seq<char>), Seq<char>>(msg@),
        },
{
    match gray_matter_parse(text) {
        Ok((data, content)) => {
            let data = match data {
                Some(node) => Some(front_value(node, FRONT_DEPTH)),
                None => None,
            };
            Ok(FrontMatter { data, content })
        },
        Err(msg) => Err(msg),
    }
}

/// Parses `text` as one YAML document with gray_matter's YAML engine and
/// copies it `depth` levels deep; on failure, the engine's message.
pub fn read_yaml(text: &str, depth: usize) -> (r: Result<FrontValue, String>)
    ensures
        match r {
            Ok(v) => yaml_document(text@) matches Ok(m) && denotes(v, m, depth as nat),
            Err(msg) => yaml_document(text@) == Err::<YamlModel, Seq<char>>(msg@),
        },
{
    match yaml_parse(text) {
        Ok(node) => Ok(front_value(node, depth)),
        Err(msg) => Err(msg),
    }
}

} // verus!
