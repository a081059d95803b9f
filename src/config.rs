//! The gateway's settings, read once at start-up and handed to the parts
//! that call the outside services.
use vstd::prelude::*;

verus! {

/// The credentials and scope the gateway uses with its outside services.
#[derive(Clone, Debug)]
pub struct Config {
    /// Root key for the key service.
    pub unkey_root_key: String,
    /// The key service's API that keys are issued for and verified against.
    pub unkey_api_id: String,
    /// API key for the image generation service.
    pub openai_api_key: String,
}

/// A setting's value: the one given, or `default` when none was given.
pub fn setting_or(value: Option<String>, default: &str) -> (r: String)
    ensures
        match value {
            Some(v) => r@ == v@,
            None => r@ == default@,
        },
{
    match value {
        Some(v) => v,
        None => default.to_string(),
    }
}

impl Config {
    /// The settings from the values found for each, with an empty value for
    /// any not found.
    pub fn from_values(
        unkey_root_key: Option<String>,
        unkey_api_id: Option<String>,
        openai_api_key: Option<String>,
    ) -> (r: Config)
        ensures
            r.unkey_root_key@ == (match unkey_root_key {
                Some(v) => v@,
                None => Seq::<char>::empty(),
            }),
            r.unkey_api_id@ == (match unkey_api_id {
                Some(v) => v@,
                None => Seq::<char>::empty(),
            }),
            r.openai_api_key@ == (match openai_api_key {
                Some(v) => v@,
                None => Seq::<char>::empty(),
            }),
    {
        proof {
            reveal_strlit("");
        }
        Config {
            unkey_root_key: setting_or(unkey_root_key, ""),
            unkey_api_id: setting_or(unkey_api_id, ""),
            openai_api_key: setting_or(openai_api_key, ""),
        }
    }
}

} // verus!
