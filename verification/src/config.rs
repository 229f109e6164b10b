//! The configuration.

use vstd::prelude::*;

verus! {

/// Where to listen, which key to ask for, and where the database is.
#[derive(Debug, PartialEq, Eq, Clone)]
pub struct Config {
    pub base_url: String,
    pub api_key: String,
    pub mongo_db_url: String,
}

/// The string that a JSON object, given as text, has under a key.
pub uninterp spec fn json_string(text: Seq<char>, key: Seq<char>) -> Option<Seq<char>>;

/// `serde_json::from_str` into a `Value`, then `Value::get` and `Value::as_str` of `serde_json`:
/// the string under `key` in the JSON object `text`; none where `text` is not JSON, is no object, or
/// has no string under `key`. The result is a function of the two texts.
#[verifier::external_body]
pub(crate) fn string_field(text: &str, key: &str) -> (field: Option<String>)
    ensures
        json_string(text@, key@) == match field {
            Some(value) => Some(value@),
            None => None::<Seq<char>>,
        },
{
    let value: serde_json::Value = serde_json::from_str(text).ok()?;
    let field = value.get(key)?.as_str()?;
    Some(field.to_string())
}

impl Config {
    /// The configuration written in JSON; none where one of its three strings is missing.
    pub fn from_json(text: &str) -> (config: Option<Config>)
        ensures
            config is Some <==> {
                &&& json_string(text@, "base_url"@) is Some
                &&& json_string(text@, "api_key"@) is Some
                &&& json_string(text@, "mongo_db_url"@) is Some
            },
            config matches Some(config) ==> {
                &&& json_string(text@, "base_url"@) == Some(config.base_url@)
                &&& json_string(text@, "api_key"@) == Some(config.api_key@)
                &&& json_string(text@, "mongo_db_url"@) == Some(config.mongo_db_url@)
            },
    {
        match (
            string_field(text, "base_url"),
            string_field(text, "api_key"),
            string_field(text, "mongo_db_url"),
        ) {
            (Some(base_url), Some(api_key), Some(mongo_db_url)) => Some(
                Config { base_url, api_key, mongo_db_url },
            ),
            _ => None,
        }
    }
}

} // verus!
