use vstd::prelude::*;

verus! {

/// The ways a rule set or a cleaning operation can fail.
///
/// Every failure is reported to the caller; nothing is swallowed.
#[derive(Debug, PartialEq, Eq)]
pub enum CleanError {
    /// A pattern in the rule source does not compile. Carries the provider
    /// name, the field the pattern stood in (in the rule source's spelling,
    /// e.g. `urlPattern`), and the raw pattern text.
    RuleLoadError { provider: String, field: String, pattern: String },
    /// A redirection pattern matched a URL but has no capturing group.
    /// Always a rule-authoring defect. Carries the pattern text.
    RedirectionHasNoCapturingGroup { pattern: String },
    /// Text produced by raw-rule rewriting or redirect resolution does not
    /// parse as a URL.
    InvalidUrl,
    /// Percent-decoded bytes are not valid UTF-8 during redirect resolution.
    DecodeError,
}

} // verus!
