use vstd::prelude::*;

use crate::yaml::YamlNode;
use crate::yaml::YamlVal;

verus! {

#[verifier::external_type_specification]
#[verifier::external_body]
pub struct ExYaml(yaml_rust::Yaml);

/// The documents that a YAML stream holds, in stream order, or `None`
/// where the text is not valid YAML. This names what
/// `yaml_rust::YamlLoader::load_from_str` returns, which depends on the
/// text alone.
pub uninterp spec fn parsed_docs(s: Seq<char>) -> Option<Seq<YamlVal>>;

/// Converts one `yaml_rust::Yaml` tree into the library's node type, one
/// variant per arm. Float scalars arrive as their source text and stay
/// text; unresolved aliases and placeholder values load as null.
#[verifier::external_body]
fn node_of_yaml(y: &yaml_rust::Yaml) -> YamlNode {
    match y {
        yaml_rust::Yaml::Real(s) => YamlNode::Real(s.clone()),
        yaml_rust::Yaml::Integer(i) => YamlNode::Int(*i),
        yaml_rust::Yaml::String(s) => YamlNode::Str(s.clone()),
        yaml_rust::Yaml::Boolean(b) => YamlNode::Bool(*b),
        yaml_rust::Yaml::Array(v) => YamlNode::List(v.iter().map(node_of_yaml).collect()),
        yaml_rust::Yaml::Hash(h) => YamlNode::Dict(
            h.iter().map(|(k, v)| (node_of_yaml(k), node_of_yaml(v))).collect(),
        ),
        yaml_rust::Yaml::Alias(_) => YamlNode::Null,
        yaml_rust::Yaml::Null => YamlNode::Null,
        yaml_rust::Yaml::BadValue => YamlNode::Null,
    }
}

/// Relies on `yaml_rust::YamlLoader::load_from_str`: it parses a YAML
/// stream into its documents, in stream order, resolving anchors and
/// aliases, and fails exactly on text that is not valid YAML. The result
/// is a function of the text alone, named by `parsed_docs`.
#[verifier::external_body]
pub fn parse_stream(text: &str) -> (r: Result<Vec<YamlNode>, ()>)
    ensures
        r matches Ok(docs) ==> parsed_docs(text@) == Some(docs.deep_view()),
        r is Err <==> parsed_docs(text@) is None,
{
    match yaml_rust::YamlLoader::load_from_str(text) {
        Ok(docs) => Ok(docs.iter().map(node_of_yaml).collect()),
        Err(_) => Err(()),
    }
}

} // verus!
