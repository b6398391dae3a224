//! Compiler for declarative data-redaction policies.
//!
//! A policy names, per selector, a list of rule identifiers; each identifier
//! resolves (preferring the policy's own rule table over the built-in table)
//! to a rule specification that may be terminal (a detector or a pattern) or
//! composite (an alias or a bundle of further identifiers). Compilation
//! flattens this graph into one deduplicated, id-ordered set of terminal rule
//! references per selector, applying the wrapper-inheritance rules for the
//! redaction action and the origin label. A separate validation pass forces
//! every embedded pattern to compile so that configuration errors surface at
//! load time.

pub mod builtin;
pub mod compiledconfig;
pub mod forwarded_for;
pub mod laws;
pub mod order;
pub mod pattern;
pub mod rules;

pub use builtin::builtin_rule;
pub use compiledconfig::{collect_rules, get_rule, CompiledPiiConfig, RuleRef};
pub use forwarded_for::{ForwardedFor, HeaderText};
pub use pattern::PiiConfigError;
pub use rules::{
    AliasRule, MultipleRule, PatternRule, PiiConfig, RedactPairRule, Redaction, RuleSpec,
    RuleType, SelectorSpec,
};
