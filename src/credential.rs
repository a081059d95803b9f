//! The credential a session holds, what verifying it reports, and the
//! request that issues a new one.
use vstd::prelude::*;

verus! {

/// A rate-limited API key: the secret presented for verification and the
/// identifier of its record on the key service.
#[derive(Clone, Debug, PartialEq, Eq)]
pub struct KeyCreateData {
    pub key: String,
    pub key_id: String,
}

/// What the key service reports when a key is verified.
#[derive(Clone, Copy, Debug, PartialEq, Eq, Structural)]
pub struct KeyVerifyData {
    pub valid: bool,
    /// Uses left; `None` when the key's uses are not counted.
    pub remaining: Option<usize>,
}

/// How often a key's uses are replenished.
#[derive(Clone, Copy, Debug, PartialEq, Eq, Structural)]
pub enum RefillInterval {
    Daily,
    Monthly,
}

/// The uses a key gets back at each interval.
#[derive(Clone, Copy, Debug, PartialEq, Eq, Structural)]
pub struct RefillPlan {
    pub amount: usize,
    pub interval: RefillInterval,
}

/// Everything the key service is asked for when a key is issued.
#[derive(Clone, Debug, PartialEq, Eq)]
pub struct KeyRequest {
    pub api_id: String,
    pub owner_id: String,
    pub remaining: usize,
    pub refill: RefillPlan,
}

/// What the key service is asked to check a key against.
#[derive(Clone, Debug, PartialEq, Eq)]
pub struct VerifyRequest {
    pub key: String,
    pub api_id: String,
}

/// The uses a new key starts with.
pub const INITIAL_QUOTA: usize = 10;

/// The uses a key gets back each day.
pub const DAILY_REFILL: usize = 10;

/// The owner every key is issued to: keys are tied to sessions, not users.
pub open spec fn owner_spec() -> Seq<char> {
    "superuser"@
}

/// The request that issues a key for the API `api_id`: a fixed owner, a
/// starting quota, and a daily refill of the same size.
pub fn key_request(api_id: &str) -> (r: KeyRequest)
    ensures
        r.api_id@ == api_id@,
        r.owner_id@ == owner_spec(),
        r.remaining == INITIAL_QUOTA,
        r.refill == (RefillPlan { amount: DAILY_REFILL, interval: RefillInterval::Daily }),
{
    KeyRequest {
        api_id: api_id.to_string(),
        owner_id: "superuser".to_string(),
        remaining: INITIAL_QUOTA,
        refill: RefillPlan { amount: DAILY_REFILL, interval: RefillInterval::Daily },
    }
}

/// The request that checks `key` against the API `api_id`.
pub fn verify_request(key: &str, api_id: &str) -> (r: VerifyRequest)
    ensures
        r.key@ == key@,
        r.api_id@ == api_id@,
{
    VerifyRequest { key: key.to_string(), api_id: api_id.to_string() }
}

/// Whether a verification allows the key to be used: it was obtained and it
/// says the key is valid.
pub open spec fn authorizes(v: Option<KeyVerifyData>) -> bool {
    v matches Some(d) && d.valid
}

} // verus!
