//! Loading the rewrite table from the text of a JSON configuration file.

use vstd::prelude::*;
use crate::rewrite::{keys_distinct, RewriteTable};

verus! {

#[verifier::external_type_specification]
#[verifier::external_body]
pub struct ExJsonError(serde_json::Error);

/// The entries of the JSON object that `text` holds, as a map of strings yields them,
/// when `text` is a JSON object whose values are all strings; absent otherwise.
pub uninterp spec fn json_string_object(text: Seq<char>) -> Option<Seq<(Seq<char>, Seq<char>)>>;

/// The characters of each string of a list of pairs.
pub open spec fn pairs_view(v: Seq<(String, String)>) -> Seq<(Seq<char>, Seq<char>)> {
    v.map_values(|p: (String, String)| (p.0@, p.1@))
}

/// Whether `a` comes strictly before `b` in lexicographic order of code points, the
/// order of `String`'s `Ord`.
pub open spec fn chars_less(a: Seq<char>, b: Seq<char>) -> bool
    decreases a.len(),
{
    if b.len() == 0 {
        false
    } else if a.len() == 0 {
        true
    } else if a[0] != b[0] {
        (a[0] as u32) < (b[0] as u32)
    } else {
        chars_less(a.drop_first(), b.drop_first())
    }
}

/// Each key comes strictly before the next one.
pub open spec fn keys_ascending(rules: Seq<(Seq<char>, Seq<char>)>) -> bool {
    forall|i: int| 0 <= i < rules.len() - 1 ==> chars_less(#[trigger] rules[i].0, rules[i + 1].0)
}

/// Relies on `serde_json::from_str` into a `BTreeMap<String, String>`, whose entries are
/// then taken in the map's order: it succeeds exactly on a JSON object of strings, and a
/// map holds each key once and yields its entries in ascending key order.
#[verifier::external_body]
fn parse_string_object(text: &str) -> (r: Result<Vec<(String, String)>, serde_json::Error>)
    ensures
        r is Ok <==> json_string_object(text@) is Some,
        r is Ok ==> json_string_object(text@) == Some(pairs_view(r->Ok_0@)),
        r is Ok ==> keys_distinct(pairs_view(r->Ok_0@)),
        r is Ok ==> keys_ascending(pairs_view(r->Ok_0@)),
{
    match serde_json::from_str::<std::collections::BTreeMap<String, String>>(text) {
        Ok(m) => Ok(m.into_iter().collect()),
        Err(e) => Err(e),
    }
}

/// Why a configuration could not be loaded.
#[derive(Clone, Copy, Debug, PartialEq, Eq, Structural)]
pub enum ConfigError {
    /// The text is not a JSON object whose values are all strings.
    Malformed,
}

/// Reads a rewrite table from the text of a JSON object of strings; each entry becomes
/// a rule, and the rules stand in ascending key order.
pub fn load_rewrites(text: &str) -> (r: Result<RewriteTable, ConfigError>)
    ensures
        r is Ok <==> json_string_object(text@) is Some,
        r is Ok ==> json_string_object(text@) == Some(r->Ok_0@) && r->Ok_0.wf(),
        r is Ok ==> keys_ascending(r->Ok_0@),
        r is Err ==> r->Err_0 == ConfigError::Malformed,
{
    match parse_string_object(text) {
        Ok(rules) => Ok(RewriteTable::from_rules(rules)),
        Err(_) => Err(ConfigError::Malformed),
    }
}

} // verus!
