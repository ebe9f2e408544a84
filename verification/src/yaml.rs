//! The top level of a YAML document, as far as plugin descriptors read it, through
//! `serde_yaml`.

use vstd::prelude::*;
use serde_yaml::Value;
use crate::yaml::YamlScalar::{Bool, Num, Other, Str};
use crate::yaml::YamlValue::{List, Scalar};

verus! {

/// A scalar: strings as written, numbers as `serde_yaml` prints them, booleans.
#[derive(Debug, Clone)]
pub enum YamlScalar {
    Str(String),
    Num(String),
    Bool(bool),
    /// Null, a mapping, a sequence or a tagged value.
    Other,
}

#[derive(Debug, Clone)]
pub enum YamlValue {
    Scalar(YamlScalar),
    /// A sequence, each item read as a scalar.
    List(Vec<YamlScalar>),
}

pub enum YamlScalarV {
    Str(Seq<char>),
    Num(Seq<char>),
    Bool(bool),
    Other,
}

pub enum YamlValueV {
    Scalar(YamlScalarV),
    List(Seq<YamlScalarV>),
}

impl View for YamlScalar {
    type V = YamlScalarV;

    open spec fn view(&self) -> YamlScalarV {
        match self {
            YamlScalar::Str(s) => YamlScalarV::Str(s@),
            YamlScalar::Num(s) => YamlScalarV::Num(s@),
            YamlScalar::Bool(b) => YamlScalarV::Bool(*b),
            YamlScalar::Other => YamlScalarV::Other,
        }
    }
}

impl View for YamlValue {
    type V = YamlValueV;

    open spec fn view(&self) -> YamlValueV {
        match self {
            YamlValue::Scalar(s) => YamlValueV::Scalar(s@),
            YamlValue::List(v) => YamlValueV::List(v@.map_values(|x: YamlScalar| x@)),
        }
    }
}

pub open spec fn entry_views(v: Seq<(String, YamlValue)>) -> Seq<(Seq<char>, YamlValueV)> {
    v.map_values(|p: (String, YamlValue)| (p.0@, p.1@))
}

/// The entries of the document's top-level mapping whose keys read as strings, in document
/// order; `None` when the text is not YAML or its top level is not a mapping.
pub uninterp spec fn yaml_top_level(text: Seq<char>) -> Option<Seq<(Seq<char>, YamlValueV)>>;

/// `serde_yaml::from_str` into a `Value`, then `as_mapping`, and of each entry whose key
/// `as_str` reads, the value converted variant by variant.
#[verifier::external_body]
pub(crate) fn yaml_mapping(text: &str) -> (r: Option<Vec<(String, YamlValue)>>)
    ensures
        match r {
            Some(v) => yaml_top_level(text@) == Some(entry_views(v@)),
            None => yaml_top_level(text@) is None,
        },
{
    let sc = |x: &Value| match x {
        Value::String(s) => Str(s.clone()),
        Value::Number(n) => Num(n.to_string()),
        Value::Bool(b) => Bool(*b),
        _ => Other,
    };
    let doc: Value = serde_yaml::from_str(text).ok()?;
    Some(doc.as_mapping()?.iter().filter_map(|(k, v)| Some((k.as_str()?.to_string(), match v {
        Value::Sequence(s) => List(s.iter().map(sc).collect()),
        x => Scalar(sc(x)),
    }))).collect())
}

} // verus!
