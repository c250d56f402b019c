//! The trusted boundary: the outside decoders and the two std string
//! helpers the crate relies on. Everything else is verified against the
//! contracts stated here.

use vstd::prelude::*;

use crate::node::Node;

verus! {

#[verifier::external_type_specification]
#[verifier::external_body]
pub struct ExJsonValue(serde_json::Value);

#[verifier::external_type_specification]
#[verifier::external_body]
pub struct ExTomlValue(toml::Value);

/// What a JSON document decodes to, as the crate's key-value tree; `None`
/// when the text is not valid JSON. Decoding depends on the text alone.
pub uninterp spec fn json_tree(s: Seq<char>) -> Option<Node>;

/// What a TOML document decodes to, as the crate's key-value tree; `None`
/// when the text is not valid TOML. Decoding depends on the text alone.
pub uninterp spec fn toml_tree(s: Seq<char>) -> Option<Node>;

/// Relies on serde_json::from_str: whether the text decodes, and to what,
/// is a function of the text alone.
#[verifier::external_body]
pub(crate) fn parse_json(s: &str) -> (r: Option<Node>)
    ensures
        r == json_tree(s@),
{
    match serde_json::from_str::<serde_json::Value>(s) {
        Ok(v) => Some(node_of_json(&v)),
        Err(_) => None,
    }
}

/// Carries a decoded JSON value over to the crate's tree, one variant per
/// arm; only reached through `parse_json`.
#[verifier::external_body]
fn node_of_json(v: &serde_json::Value) -> Node {
    match v {
        serde_json::Value::String(s) => Node::Str(s.clone()),
        serde_json::Value::Object(m) => Node::Table(
            m.iter().map(|(k, x)| (k.clone(), node_of_json(x))).collect(),
        ),
        _ => Node::Other,
    }
}

/// Relies on toml::from_str: whether the text decodes, and to what, is a
/// function of the text alone.
#[verifier::external_body]
pub(crate) fn parse_toml(s: &str) -> (r: Option<Node>)
    ensures
        r == toml_tree(s@),
{
    match toml::from_str::<toml::Value>(s) {
        Ok(v) => Some(node_of_toml(&v)),
        Err(_) => None,
    }
}

/// Carries a decoded TOML value over to the crate's tree, one variant per
/// arm; only reached through `parse_toml`.
#[verifier::external_body]
fn node_of_toml(v: &toml::Value) -> Node {
    match v {
        toml::Value::String(s) => Node::Str(s.clone()),
        toml::Value::Table(m) => Node::Table(
            m.iter().map(|(k, x)| (k.clone(), node_of_toml(x))).collect(),
        ),
        _ => Node::Other,
    }
}

/// What str::to_lowercase returns; it depends on the characters alone.
pub uninterp spec fn lower_of(s: Seq<char>) -> Seq<char>;

/// Relies on str::to_lowercase: the result depends on the characters alone.
#[verifier::external_body]
pub(crate) fn to_lower(s: &str) -> (r: String)
    ensures
        r@ == lower_of(s@),
{
    s.to_lowercase()
}

/// True when `s` begins with the characters of `p`.
pub open spec fn seq_starts_with(s: Seq<char>, p: Seq<char>) -> bool {
    s.len() >= p.len() && s.subrange(0, p.len() as int) == p
}

/// Relies on str::starts_with: true exactly when the string begins with the
/// pattern's characters.
#[verifier::external_body]
pub(crate) fn str_starts_with(s: &str, prefix: &str) -> (r: bool)
    ensures
        r == seq_starts_with(s@, prefix@),
{
    s.starts_with(prefix)
}

} // verus!
