//! YAML documents, as the `yaml_rust` crate loads and reads them.
//!
//! Nothing here is proved: a loaded node is opaque, and the contracts below
//! give names to what the crate's loader and accessors return.

use vstd::prelude::*;
use yaml_rust::{ScanError, Yaml, YamlLoader};

verus! {

/// `yaml_rust::Yaml`, a node of a loaded document: opaque here.
#[verifier::external_type_specification]
#[verifier::external_body]
pub struct ExYaml(yaml_rust::Yaml);

/// `yaml_rust::ScanError`, the loader's account of a text that does not
/// load: opaque here.
#[verifier::external_type_specification]
#[verifier::external_body]
pub struct ExScanError(yaml_rust::ScanError);

/// The documents that the loader reads out of `source`; `None` where it
/// reports a scan error.
pub uninterp spec fn yaml_documents(source: Seq<char>) -> Option<Seq<Yaml>>;

/// What a node holds under the string key `key`: the bad value where the node
/// is no hash or has no such key.
pub uninterp spec fn yaml_member(node: Yaml, key: Seq<char>) -> Yaml;

/// The text of a string node; `None` for every other node.
pub uninterp spec fn yaml_text(node: Yaml) -> Option<Seq<char>>;

/// The items of an array node; `None` for every other node.
pub uninterp spec fn yaml_items(node: Yaml) -> Option<Seq<Yaml>>;

/// `yaml_rust::YamlLoader::load_from_str`: the loader answers every source
/// text, with documents or with a scan error, and its answer depends on the
/// source text alone.
pub assume_specification[ yaml_rust::YamlLoader::load_from_str ](source: &str) -> (loaded: Result<
    Vec<Yaml>,
    ScanError,
>)
    ensures
        match loaded {
            Ok(docs) => yaml_documents(source@) == Some(docs@),
            Err(_) => yaml_documents(source@) is None,
        },
;

/// `yaml_rust::Yaml::as_str`: the text of a string node.
pub assume_specification<'a>[ yaml_rust::Yaml::as_str ](node: &'a Yaml) -> (text: Option<&'a str>)
    ensures
        match text {
            Some(s) => yaml_text(*node) == Some(s@),
            None => yaml_text(*node) is None,
        },
;

/// `yaml_rust::Yaml::as_vec`: the items of an array node.
pub assume_specification<'a>[ yaml_rust::Yaml::as_vec ](node: &'a Yaml) -> (items: Option<
    &'a Vec<Yaml>,
>)
    ensures
        match items {
            Some(v) => yaml_items(*node) == Some(v@),
            None => yaml_items(*node) is None,
        },
;

/// Indexing a node by a string key (`Index<&str>` of `yaml_rust::Yaml`): the
/// node stored under that key.
#[verifier::external_body]
pub(crate) fn member<'a>(node: &'a Yaml, key: &str) -> (found: &'a Yaml)
    ensures
        *found == yaml_member(*node, key@),
{
    &node[key]
}

} // verus!
