//! A verified engine that strips tracking and referral-marketing parameters
//! from URLs, driven by a per-site rule set of regular-expression patterns.
pub mod errors;
pub mod keys;
pub mod laws;
pub mod provider;
pub mod regexes;
pub mod strip;
pub mod text;
pub mod urls;

pub use errors::CleanError;
pub use keys::{is_allowed_domain_char, key_iter, keys_from_url};
pub use provider::{load, Provider, ProviderSource, RuleSet};
pub use strip::{is_full_match, repeatedly_urldecode, serialize_params};
