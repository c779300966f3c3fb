use vstd::prelude::*;

use crate::model::Container;
use crate::model::ContainerV;
use crate::model::DeploymentSpec;
use crate::model::EnvVar;
use crate::model::EnvVarV;
use crate::model::JobSpec;
use crate::model::Object;
use crate::model::ObjectKind;
use crate::model::ObjectKindV;
use crate::model::ObjectV;
use crate::model::PodSpec;
use crate::model::PodSpecV;
use crate::model::PodTemplateSpec;
use crate::model::PodTemplateSpecV;
use crate::yaml::dict_get;
use crate::yaml::dict_entries_get;
use crate::yaml::entry_vals;
use crate::yaml::list_vals;
use crate::yaml::lemma_list_vals;
use crate::yaml::node_val;
use crate::yaml::YamlNode;
use crate::yaml::YamlVal;

verus! {

/// Why a set of documents could not be turned into workload objects.
#[derive(Debug)]
pub enum LoadError {
    /// The text of the input at this position in the list is not valid YAML.
    InvalidYaml { index: usize },
    /// A document lacks a well-formed envelope: `apiVersion`, `kind` and
    /// `metadata.name` must all be present, as strings, and the name
    /// must not be empty. `doc` is the position of the offending
    /// document in the classified stream; classifying one document on
    /// its own reports position zero.
    MalformedEnvelope { doc: usize },
    /// A document of a recognized kind carries a specification that does
    /// not have the expected shape; `name` is the object's declared name.
    MalformedSpec { name: String },
}

pub enum LoadErrorV {
    InvalidYaml { index: int },
    MalformedEnvelope { doc: int },
    MalformedSpec { name: Seq<char> },
}

impl DeepView for LoadError {
    type V = LoadErrorV;

    open spec fn deep_view(&self) -> LoadErrorV {
        match self {
            LoadError::InvalidYaml { index } => LoadErrorV::InvalidYaml { index: *index as int },
            LoadError::MalformedEnvelope { doc } => LoadErrorV::MalformedEnvelope {
                doc: *doc as int,
            },
            LoadError::MalformedSpec { name } => LoadErrorV::MalformedSpec { name: name@ },
        }
    }
}

/// The envelope fields of a document: `apiVersion`, `kind`,
/// `metadata.name`, and the raw `spec` value where one is present. The
/// declared name must be a non-empty string: a workload object's name
/// is never empty, so an empty name is a malformed envelope.
pub open spec fn spec_envelope(d: YamlVal) -> Option<(Seq<char>, Seq<char>, Seq<char>, Option<YamlVal>)> {
    match d {
        YamlVal::Dict(e) => match (dict_get(e, "apiVersion"@), dict_get(e, "kind"@), dict_get(
            e,
            "metadata"@,
        )) {
            (Some(YamlVal::Str(api)), Some(YamlVal::Str(kind)), Some(YamlVal::Dict(meta))) => {
                match dict_get(meta, "name"@) {
                    Some(YamlVal::Str(name)) => if name.len() == 0 {
                        None
                    } else {
                        Some((api, kind, name, dict_get(e, "spec"@)))
                    },
                    _ => None,
                }
            },
            _ => None,
        },
        _ => None,
    }
}

/// An optional string field: absent or null means none, a string scalar
/// is its value, and anything else is a schema error.
pub open spec fn spec_opt_str(o: Option<YamlVal>) -> Option<Option<Seq<char>>> {
    match o {
        None => Some(None),
        Some(YamlVal::Null) => Some(None),
        Some(YamlVal::Str(s)) => Some(Some(s)),
        Some(_) => None,
    }
}

/// A list whose items must all be string scalars.
pub open spec fn spec_str_list(items: Seq<YamlVal>) -> Option<Seq<Seq<char>>>
    decreases items.len(),
{
    if items.len() == 0 {
        Some(Seq::empty())
    } else {
        match (spec_str_list(items.drop_last()), items.last()) {
            (Some(strs), YamlVal::Str(s)) => Some(strs.push(s)),
            _ => None,
        }
    }
}

/// An optional list-of-strings field.
pub open spec fn spec_opt_str_list(o: Option<YamlVal>) -> Option<Option<Seq<Seq<char>>>> {
    match o {
        None => Some(None),
        Some(YamlVal::Null) => Some(None),
        Some(YamlVal::List(items)) => match spec_str_list(items) {
            Some(strs) => Some(Some(strs)),
            None => None,
        },
        Some(_) => None,
    }
}

/// One declared environment variable: a dictionary with a required
/// string `name` and an optional string `value`.
pub open spec fn spec_env_var(v: YamlVal) -> Option<EnvVarV> {
    match v {
        YamlVal::Dict(e) => match dict_get(e, "name"@) {
            Some(YamlVal::Str(name)) => match spec_opt_str(dict_get(e, "value"@)) {
                Some(value) => Some(EnvVarV { name, value }),
                None => None,
            },
            _ => None,
        },
        _ => None,
    }
}

pub open spec fn spec_env_list(items: Seq<YamlVal>) -> Option<Seq<EnvVarV>>
    decreases items.len(),
{
    if items.len() == 0 {
        Some(Seq::empty())
    } else {
        match (spec_env_list(items.drop_last()), spec_env_var(items.last())) {
            (Some(vars), Some(v)) => Some(vars.push(v)),
            _ => None,
        }
    }
}

/// An optional `env` field: absent or null means none.
pub open spec fn spec_opt_env(o: Option<YamlVal>) -> Option<Option<Seq<EnvVarV>>> {
    match o {
        None => Some(None),
        Some(YamlVal::Null) => Some(None),
        Some(YamlVal::List(items)) => match spec_env_list(items) {
            Some(vars) => Some(Some(vars)),
            None => None,
        },
        Some(_) => None,
    }
}

/// One container: a dictionary with a required string `name`; `image`,
/// `command`, `args` and `env` are optional and typed as above. Unknown
/// keys are ignored.
pub open spec fn spec_container(v: YamlVal) -> Option<ContainerV> {
    match v {
        YamlVal::Dict(e) => match dict_get(e, "name"@) {
            Some(YamlVal::Str(name)) => match (
                spec_opt_str(dict_get(e, "image"@)),
                spec_opt_str_list(dict_get(e, "command"@)),
                spec_opt_str_list(dict_get(e, "args"@)),
                spec_opt_env(dict_get(e, "env"@)),
            ) {
                (Some(image), Some(command), Some(args), Some(env)) => Some(
                    ContainerV { name, image, command, args, env },
                ),
                _ => None,
            },
            _ => None,
        },
        _ => None,
    }
}

pub open spec fn spec_containers(items: Seq<YamlVal>) -> Option<Seq<ContainerV>>
    decreases items.len(),
{
    if items.len() == 0 {
        Some(Seq::empty())
    } else {
        match (spec_containers(items.drop_last()), spec_container(items.last())) {
            (Some(cs), Some(c)) => Some(cs.push(c)),
            _ => None,
        }
    }
}

/// A pod specification: a dictionary whose `containers` key holds a list
/// of containers.
pub open spec fn spec_pod_spec(v: YamlVal) -> Option<PodSpecV> {
    match v {
        YamlVal::Dict(e) => match dict_get(e, "containers"@) {
            Some(YamlVal::List(items)) => match spec_containers(items) {
                Some(cs) => Some(PodSpecV { containers: cs }),
                None => None,
            },
            _ => None,
        },
        _ => None,
    }
}

/// A pod template: a dictionary whose `spec` key, where present and not
/// null, holds a pod specification.
pub open spec fn spec_template(v: YamlVal) -> Option<PodTemplateSpecV> {
    match v {
        YamlVal::Dict(e) => match dict_get(e, "spec"@) {
            None => Some(PodTemplateSpecV { spec: None }),
            Some(YamlVal::Null) => Some(PodTemplateSpecV { spec: None }),
            Some(s) => match spec_pod_spec(s) {
                Some(p) => Some(PodTemplateSpecV { spec: Some(p) }),
                None => None,
            },
        },
        _ => None,
    }
}

/// The specification of a recognized workload kind: a dictionary whose
/// required `template` key holds a pod template. A document whose `spec`
/// is absent was mapped to null and fails here.
pub open spec fn spec_workload_spec(v: Option<YamlVal>) -> Option<PodTemplateSpecV> {
    match v {
        Some(YamlVal::Dict(e)) => match dict_get(e, "template"@) {
            Some(t) => spec_template(t),
            None => None,
        },
        _ => None,
    }
}

/// Classification of one document. A malformed envelope is an error; a
/// recognized `(apiVersion, kind)` pair yields a workload object or a
/// spec error named after the object; any other pair yields nothing.
pub open spec fn spec_classify(d: YamlVal) -> Result<Option<ObjectV>, LoadErrorV> {
    match spec_envelope(d) {
        None => Err(LoadErrorV::MalformedEnvelope { doc: 0 }),
        Some((api, kind, name, sp)) => {
            if api == "apps/v1"@ && kind == "Deployment"@ {
                match spec_workload_spec(sp) {
                    Some(t) => Ok(
                        Some(ObjectV { name, kind: ObjectKindV::Deployment(t) }),
                    ),
                    None => Err(LoadErrorV::MalformedSpec { name }),
                }
            } else if api == "batch/v1"@ && kind == "Job"@ {
                match spec_workload_spec(sp) {
                    Some(t) => Ok(Some(ObjectV { name, kind: ObjectKindV::Job(t) })),
                    None => Err(LoadErrorV::MalformedSpec { name }),
                }
            } else {
                Ok(None)
            }
        },
    }
}

/// A `Result` seen at the view level on both sides.
pub open spec fn res_view<T: DeepView, E: DeepView>(r: Result<T, E>) -> Result<T::V, E::V> {
    match r {
        Ok(t) => Ok(t.deep_view()),
        Err(e) => Err(e.deep_view()),
    }
}

pub proof fn lemma_node_val_variants(n: YamlNode)
    ensures
        node_val(n) is Str <==> n is Str,
        n matches YamlNode::Str(s) ==> node_val(n) == YamlVal::Str(s@),
        node_val(n) is Dict <==> n is Dict,
        n matches YamlNode::Dict(e) ==> node_val(n) == YamlVal::Dict(entry_vals(e@)),
        node_val(n) is List <==> n is List,
        n matches YamlNode::List(v) ==> node_val(n) == YamlVal::List(list_vals(v@)),
        node_val(n) is Null <==> n is Null,
{
    match n {
        YamlNode::Null => {},
        YamlNode::Bool(_) => {},
        YamlNode::Int(_) => {},
        YamlNode::Real(_) => {},
        YamlNode::Str(_) => {},
        YamlNode::List(_) => {},
        YamlNode::Dict(_) => {},
    }
}

pub proof fn lemma_spec_str_list(items: Seq<YamlVal>)
    ensures
        spec_str_list(items) is Some <==> (forall|j: int|
            0 <= j < items.len() ==> items[j] is Str),
        spec_str_list(items) matches Some(strs) ==> strs.len() == items.len() && (forall|j: int|
            0 <= j < items.len() ==> items[j] == YamlVal::Str(strs[j])),
    decreases items.len(),
{
    if items.len() > 0 {
        let prefix = items.drop_last();
        lemma_spec_str_list(prefix);
        assert(forall|j: int| 0 <= j < prefix.len() ==> prefix[j] == items[j]);
        assert(items.last() == items[items.len() - 1]);
        if forall|j: int| 0 <= j < items.len() ==> items[j] is Str {
            assert(forall|j: int| 0 <= j < prefix.len() ==> prefix[j] is Str);
        }
    }
}

pub proof fn lemma_spec_env_list(items: Seq<YamlVal>)
    ensures
        spec_env_list(items) is Some <==> (forall|j: int|
            0 <= j < items.len() ==> spec_env_var(items[j]) is Some),
        spec_env_list(items) matches Some(vars) ==> vars.len() == items.len() && (forall|j: int|
            0 <= j < items.len() ==> spec_env_var(items[j]) == Some(vars[j])),
    decreases items.len(),
{
    if items.len() > 0 {
        let prefix = items.drop_last();
        lemma_spec_env_list(prefix);
        assert(forall|j: int| 0 <= j < prefix.len() ==> prefix[j] == items[j]);
        assert(items.last() == items[items.len() - 1]);
        if forall|j: int| 0 <= j < items.len() ==> spec_env_var(items[j]) is Some {
            assert(forall|j: int| 0 <= j < prefix.len() ==> spec_env_var(prefix[j]) is Some);
        }
    }
}

pub proof fn lemma_spec_containers(items: Seq<YamlVal>)
    ensures
        spec_containers(items) is Some <==> (forall|j: int|
            0 <= j < items.len() ==> spec_container(items[j]) is Some),
        spec_containers(items) matches Some(cs) ==> cs.len() == items.len() && (forall|j: int|
            0 <= j < items.len() ==> spec_container(items[j]) == Some(cs[j])),
    decreases items.len(),
{
    if items.len() > 0 {
        let prefix = items.drop_last();
        lemma_spec_containers(prefix);
        assert(forall|j: int| 0 <= j < prefix.len() ==> prefix[j] == items[j]);
        assert(items.last() == items[items.len() - 1]);
        if forall|j: int| 0 <= j < items.len() ==> spec_container(items[j]) is Some {
            assert(forall|j: int| 0 <= j < prefix.len() ==> spec_container(prefix[j]) is Some);
        }
    }
}

fn decode_opt_str(o: Option<&YamlNode>) -> (r: Option<Option<String>>)
    ensures
        match r {
            Some(v) => spec_opt_str(o.deep_view()) == Some(v.deep_view()),
            None => spec_opt_str(o.deep_view()) is None,
        },
{
    match o {
        None => Some(None),
        Some(YamlNode::Null) => Some(None),
        Some(YamlNode::Str(s)) => Some(Some(s.clone())),
        Some(n) => {
            proof {
                lemma_node_val_variants(*n);
            }
            None
        },
    }
}

fn decode_str_list(items: &Vec<YamlNode>) -> (r: Option<Vec<String>>)
    ensures
        match r {
            Some(v) => spec_str_list(list_vals(items@)) == Some(v.deep_view()),
            None => spec_str_list(list_vals(items@)) is None,
        },
{
    proof {
        lemma_list_vals(items@);
        lemma_spec_str_list(list_vals(items@));
    }
    let ghost lv = list_vals(items@);
    let mut out: Vec<String> = Vec::new();
    let n = items.len();
    for i in 0..n
        invariant
            n == items.len(),
            lv == list_vals(items@),
            lv.len() == items@.len(),
            forall|j: int| 0 <= j < items@.len() ==> lv[j] == node_val(items@[j]),
            out@.len() == i,
            forall|j: int| 0 <= j < i ==> lv[j] == YamlVal::Str(#[trigger] out@[j]@),
    {
        match &items[i] {
            YamlNode::Str(s) => {
                out.push(s.clone());
            },
            n => {
                proof {
                    lemma_node_val_variants(*n);
                    assert(lv[i as int] == node_val(items@[i as int]));
                    lemma_spec_str_list(lv);
                }
                return None;
            },
        }
    }
    proof {
        lemma_spec_str_list(lv);
        assert forall|j: int| 0 <= j < lv.len() implies lv[j] is Str by {
            assert(lv[j] == YamlVal::Str(out@[j]@));
        }
        assert(spec_str_list(lv) is Some);
        let strs = spec_str_list(lv)->Some_0;
        assert forall|j: int| 0 <= j < strs.len() implies strs[j] == out.deep_view()[j] by {
            assert(lv[j] == YamlVal::Str(out@[j]@));
            assert(out.deep_view()[j] == out@[j]@);
        }
        assert(strs =~= out.deep_view());
    }
    Some(out)
}

fn decode_opt_str_list(o: Option<&YamlNode>) -> (r: Option<Option<Vec<String>>>)
    ensures
        match r {
            Some(v) => spec_opt_str_list(o.deep_view()) == Some(v.deep_view()),
            None => spec_opt_str_list(o.deep_view()) is None,
        },
{
    match o {
        None => Some(None),
        Some(YamlNode::Null) => Some(None),
        Some(YamlNode::List(items)) => match decode_str_list(items) {
            Some(v) => Some(Some(v)),
            None => None,
        },
        Some(n) => {
            proof {
                lemma_node_val_variants(*n);
            }
            None
        },
    }
}

fn decode_env_var(n: &YamlNode) -> (r: Option<EnvVar>)
    ensures
        match r {
            Some(v) => spec_env_var(n.deep_view()) == Some(v.deep_view()),
            None => spec_env_var(n.deep_view()) is None,
        },
{
    match n {
        YamlNode::Dict(entries) => {
            let name = match dict_entries_get(entries, "name") {
                Some(YamlNode::Str(s)) => s.clone(),
                Some(other) => {
                    proof {
                        lemma_node_val_variants(*other);
                    }
                    return None;
                },
                None => {
                    return None;
                },
            };
            match decode_opt_str(dict_entries_get(entries, "value")) {
                Some(value) => Some(EnvVar { name, value }),
                None => None,
            }
        },
        _ => {
            proof {
                lemma_node_val_variants(*n);
            }
            None
        },
    }
}

fn decode_env_list(items: &Vec<YamlNode>) -> (r: Option<Vec<EnvVar>>)
    ensures
        match r {
            Some(v) => spec_env_list(list_vals(items@)) == Some(v.deep_view()),
            None => spec_env_list(list_vals(items@)) is None,
        },
{
    proof {
        lemma_list_vals(items@);
    }
    let ghost lv = list_vals(items@);
    let mut out: Vec<EnvVar> = Vec::new();
    let n = items.len();
    for i in 0..n
        invariant
            n == items.len(),
            lv == list_vals(items@),
            lv.len() == items@.len(),
            forall|j: int| 0 <= j < items@.len() ==> lv[j] == node_val(items@[j]),
            out@.len() == i,
            forall|j: int|
                0 <= j < i ==> spec_env_var(lv[j]) == Some(#[trigger] out@[j].deep_view()),
    {
        match decode_env_var(&items[i]) {
            Some(v) => {
                out.push(v);
            },
            None => {
                proof {
                    assert(lv[i as int] == node_val(items@[i as int]));
                    lemma_spec_env_list(lv);
                }
                return None;
            },
        }
    }
    proof {
        lemma_spec_env_list(lv);
        assert forall|j: int| 0 <= j < lv.len() implies spec_env_var(lv[j]) is Some by {
            assert(spec_env_var(lv[j]) == Some(out@[j].deep_view()));
        }
        assert(spec_env_list(lv) is Some);
        let vars = spec_env_list(lv)->Some_0;
        assert forall|j: int| 0 <= j < vars.len() implies vars[j] == out.deep_view()[j] by {
            assert(spec_env_var(lv[j]) == Some(out@[j].deep_view()));
            assert(out.deep_view()[j] == out@[j].deep_view());
        }
        assert(vars =~= out.deep_view());
    }
    Some(out)
}

fn decode_opt_env(o: Option<&YamlNode>) -> (r: Option<Option<Vec<EnvVar>>>)
    ensures
        match r {
            Some(v) => spec_opt_env(o.deep_view()) == Some(v.deep_view()),
            None => spec_opt_env(o.deep_view()) is None,
        },
{
    match o {
        None => Some(None),
        Some(YamlNode::Null) => Some(None),
        Some(YamlNode::List(items)) => match decode_env_list(items) {
            Some(v) => Some(Some(v)),
            None => None,
        },
        Some(n) => {
            proof {
                lemma_node_val_variants(*n);
            }
            None
        },
    }
}

fn decode_container(n: &YamlNode) -> (r: Option<Container>)
    ensures
        match r {
            Some(c) => spec_container(n.deep_view()) == Some(c.deep_view()),
            None => spec_container(n.deep_view()) is None,
        },
{
    match n {
        YamlNode::Dict(entries) => {
            let name = match dict_entries_get(entries, "name") {
                Some(YamlNode::Str(s)) => s.clone(),
                Some(other) => {
                    proof {
                        lemma_node_val_variants(*other);
                    }
                    return None;
                },
                None => {
                    return None;
                },
            };
            let image = match decode_opt_str(dict_entries_get(entries, "image")) {
                Some(v) => v,
                None => {
                    return None;
                },
            };
            let command = match decode_opt_str_list(dict_entries_get(entries, "command")) {
                Some(v) => v,
                None => {
                    return None;
                },
            };
            let args = match decode_opt_str_list(dict_entries_get(entries, "args")) {
                Some(v) => v,
                None => {
                    return None;
                },
            };
            let env = match decode_opt_env(dict_entries_get(entries, "env")) {
                Some(v) => v,
                None => {
                    return None;
                },
            };
            Some(Container { name, image, command, args, env })
        },
        _ => {
            proof {
                lemma_node_val_variants(*n);
            }
            None
        },
    }
}

fn decode_containers(items: &Vec<YamlNode>) -> (r: Option<Vec<Container>>)
    ensures
        match r {
            Some(v) => spec_containers(list_vals(items@)) == Some(v.deep_view()),
            None => spec_containers(list_vals(items@)) is None,
        },
{
    proof {
        lemma_list_vals(items@);
    }
    let ghost lv = list_vals(items@);
    let mut out: Vec<Container> = Vec::new();
    let n = items.len();
    for i in 0..n
        invariant
            n == items.len(),
            lv == list_vals(items@),
            lv.len() == items@.len(),
            forall|j: int| 0 <= j < items@.len() ==> lv[j] == node_val(items@[j]),
            out@.len() == i,
            forall|j: int|
                0 <= j < i ==> spec_container(lv[j]) == Some(#[trigger] out@[j].deep_view()),
    {
        match decode_container(&items[i]) {
            Some(c) => {
                out.push(c);
            },
            None => {
                proof {
                    assert(lv[i as int] == node_val(items@[i as int]));
                    lemma_spec_containers(lv);
                }
                return None;
            },
        }
    }
    proof {
        lemma_spec_containers(lv);
        assert forall|j: int| 0 <= j < lv.len() implies spec_container(lv[j]) is Some by {
            assert(spec_container(lv[j]) == Some(out@[j].deep_view()));
        }
        assert(spec_containers(lv) is Some);
        let cs = spec_containers(lv)->Some_0;
        assert forall|j: int| 0 <= j < cs.len() implies cs[j] == out.deep_view()[j] by {
            assert(spec_container(lv[j]) == Some(out@[j].deep_view()));
            assert(out.deep_view()[j] == out@[j].deep_view());
        }
        assert(cs =~= out.deep_view());
    }
    Some(out)
}

fn decode_pod_spec(n: &YamlNode) -> (r: Option<PodSpec>)
    ensures
        match r {
            Some(p) => spec_pod_spec(n.deep_view()) == Some(p.deep_view()),
            None => spec_pod_spec(n.deep_view()) is None,
        },
{
    match n {
        YamlNode::Dict(entries) => match dict_entries_get(entries, "containers") {
            Some(YamlNode::List(items)) => match decode_containers(items) {
                Some(cs) => Some(PodSpec { containers: cs }),
                None => None,
            },
            Some(other) => {
                proof {
                    lemma_node_val_variants(*other);
                }
                None
            },
            None => None,
        },
        _ => {
            proof {
                lemma_node_val_variants(*n);
            }
            None
        },
    }
}

fn decode_template(n: &YamlNode) -> (r: Option<PodTemplateSpec>)
    ensures
        match r {
            Some(t) => spec_template(n.deep_view()) == Some(t.deep_view()),
            None => spec_template(n.deep_view()) is None,
        },
{
    match n {
        YamlNode::Dict(entries) => match dict_entries_get(entries, "spec") {
            None => Some(PodTemplateSpec { spec: None }),
            Some(YamlNode::Null) => Some(PodTemplateSpec { spec: None }),
            Some(s) => {
                proof {
                    lemma_node_val_variants(*s);
                }
                match decode_pod_spec(s) {
                    Some(p) => Some(PodTemplateSpec { spec: Some(p) }),
                    None => None,
                }
            },
        },
        _ => {
            proof {
                lemma_node_val_variants(*n);
            }
            None
        },
    }
}

fn decode_workload_spec(o: Option<&YamlNode>) -> (r: Option<PodTemplateSpec>)
    ensures
        match r {
            Some(t) => spec_workload_spec(o.deep_view()) == Some(t.deep_view()),
            None => spec_workload_spec(o.deep_view()) is None,
        },
{
    match o {
        Some(YamlNode::Dict(entries)) => match dict_entries_get(entries, "template") {
            Some(t) => decode_template(t),
            None => None,
        },
        Some(n) => {
            proof {
                lemma_node_val_variants(*n);
            }
            None
        },
        None => None,
    }
}

pub(crate) fn decode_envelope<'a>(n: &'a YamlNode) -> (r: Option<
    (String, String, String, Option<&'a YamlNode>),
>)
    ensures
        match r {
            Some(t) => spec_envelope(n.deep_view()) == Some(
                (t.0@, t.1@, t.2@, t.3.deep_view()),
            ),
            None => spec_envelope(n.deep_view()) is None,
        },
{
    match n {
        YamlNode::Dict(entries) => {
            let api = match dict_entries_get(entries, "apiVersion") {
                Some(YamlNode::Str(s)) => s.clone(),
                Some(other) => {
                    proof {
                        lemma_node_val_variants(*other);
                    }
                    return None;
                },
                None => {
                    return None;
                },
            };
            let kind = match dict_entries_get(entries, "kind") {
                Some(YamlNode::Str(s)) => s.clone(),
                Some(other) => {
                    proof {
                        lemma_node_val_variants(*other);
                    }
                    return None;
                },
                None => {
                    return None;
                },
            };
            let name = match dict_entries_get(entries, "metadata") {
                Some(YamlNode::Dict(meta)) => match dict_entries_get(meta, "name") {
                    Some(YamlNode::Str(s)) => {
                        if s.as_str().is_empty() {
                            return None;
                        }
                        s.clone()
                    },
                    Some(other) => {
                        proof {
                            lemma_node_val_variants(*other);
                        }
                        return None;
                    },
                    None => {
                        return None;
                    },
                },
                Some(other) => {
                    proof {
                        lemma_node_val_variants(*other);
                    }
                    return None;
                },
                None => {
                    return None;
                },
            };
            let sp = dict_entries_get(entries, "spec");
            Some((api, kind, name, sp))
        },
        _ => {
            proof {
                lemma_node_val_variants(*n);
            }
            None
        },
    }
}

impl Object {
    /// Classifies one document. A malformed envelope is an error; a
    /// recognized `(apiVersion, kind)` pair yields a workload object or
    /// a spec error named after the object; documents of any other kind
    /// yield nothing, which is not an error.
    pub fn from_yaml(val: &YamlNode) -> (r: Result<Option<Object>, LoadError>)
        ensures
            res_view(r) == spec_classify(val.deep_view()),
    {
        let envelope = match decode_envelope(val) {
            Some(t) => t,
            None => {
                return Err(LoadError::MalformedEnvelope { doc: 0 });
            },
        };
        let (api, kind, name, sp) = envelope;
        let is_deployment = api == "apps/v1".to_owned() && kind == "Deployment".to_owned();
        let is_job = api == "batch/v1".to_owned() && kind == "Job".to_owned();
        if is_deployment {
            match decode_workload_spec(sp) {
                Some(t) => Ok(
                    Some(
                        Object {
                            name,
                            kind: ObjectKind::Deployment(DeploymentSpec { template: t }),
                        },
                    ),
                ),
                None => Err(LoadError::MalformedSpec { name }),
            }
        } else if is_job {
            match decode_workload_spec(sp) {
                Some(t) => Ok(
                    Some(Object { name, kind: ObjectKind::Job(JobSpec { template: t }) }),
                ),
                None => Err(LoadError::MalformedSpec { name }),
            }
        } else {
            Ok(None)
        }
    }
}

} // verus!
