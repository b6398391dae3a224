//! The source-side data model: rule specifications and policies.
//!
//! A policy maps selectors to lists of rule identifiers and carries its own
//! identifier-to-specification table. Every type here has a mathematical
//! model (`...V`) over `Seq<char>`, and the contracts of the compiler are
//! stated over those models.

use vstd::prelude::*;

verus! {

/// The redaction action attached to a rule. `Default` defers to an enclosing
/// wrapper rule, or leaves the data untouched if nothing overrides it; the
/// other variants are concrete, self-sufficient actions.
#[derive(Clone, Copy, Debug, PartialEq, Eq)]
pub enum Redaction {
    Default,
    Mask,
    Replace,
    Remove,
}

/// A terminal rule matching a regular-expression pattern against values.
#[derive(Clone, Debug)]
pub struct PatternRule {
    pub pattern: String,
}

/// A terminal rule redacting the value of key/value pairs whose key matches
/// a pattern.
#[derive(Clone, Debug)]
pub struct RedactPairRule {
    pub key_pattern: String,
}

/// A composite rule bundling an ordered list of sub-rule identifiers.
#[derive(Clone, Debug)]
pub struct MultipleRule {
    pub rules: Vec<String>,
    pub hide_inner: bool,
}

/// A composite rule renaming a single sub-rule identifier.
#[derive(Clone, Debug)]
pub struct AliasRule {
    pub rule: String,
    pub hide_inner: bool,
}

/// The behaviour of a rule: a pattern rule, a key/value pattern rule, one of
/// the named built-in detectors, a composite wrapper, or an unrecognised tag
/// kept for forward compatibility.
#[derive(Clone, Debug)]
pub enum RuleType {
    Anything,
    Pattern(PatternRule),
    Imei,
    Mac,
    Uuid,
    Email,
    Ip,
    Creditcard,
    Iban,
    Userpath,
    Pemkey,
    UrlAuth,
    UsSsn,
    Password,
    RedactPair(RedactPairRule),
    Multiple(MultipleRule),
    Alias(AliasRule),
    Unknown(String),
}

/// A named rule: its behaviour and its redaction action.
#[derive(Clone, Debug)]
pub struct RuleSpec {
    pub ty: RuleType,
    pub redaction: Redaction,
}

/// An opaque selector naming the parts of an event a rule list applies to.
/// This crate treats it purely as a key.
#[derive(Clone, Debug)]
pub struct SelectorSpec(pub String);

/// A redaction policy: its own rule table and, per selector, the ordered
/// list of top-level rule identifiers to apply.
#[derive(Clone, Debug)]
pub struct PiiConfig {
    pub rules: Vec<(String, RuleSpec)>,
    pub applications: Vec<(SelectorSpec, Vec<String>)>,
}

/// Mathematical model of `RuleType`.
pub enum RuleTypeV {
    Anything,
    Pattern { pattern: Seq<char> },
    Imei,
    Mac,
    Uuid,
    Email,
    Ip,
    Creditcard,
    Iban,
    Userpath,
    Pemkey,
    UrlAuth,
    UsSsn,
    Password,
    RedactPair { key_pattern: Seq<char> },
    Multiple { rules: Seq<Seq<char>>, hide_inner: bool },
    Alias { rule: Seq<char>, hide_inner: bool },
    Unknown { tag: Seq<char> },
}

/// Mathematical model of `RuleSpec`.
pub struct RuleSpecV {
    pub ty: RuleTypeV,
    pub redaction: Redaction,
}

/// Mathematical model of `PiiConfig`.
pub struct PiiConfigV {
    pub rules: Seq<(Seq<char>, RuleSpecV)>,
    pub applications: Seq<(Seq<char>, Seq<Seq<char>>)>,
}

impl DeepView for RuleType {
    type V = RuleTypeV;

    open spec fn deep_view(&self) -> RuleTypeV {
        match self {
            RuleType::Anything => RuleTypeV::Anything,
            RuleType::Pattern(p) => RuleTypeV::Pattern { pattern: p.pattern@ },
            RuleType::Imei => RuleTypeV::Imei,
            RuleType::Mac => RuleTypeV::Mac,
            RuleType::Uuid => RuleTypeV::Uuid,
            RuleType::Email => RuleTypeV::Email,
            RuleType::Ip => RuleTypeV::Ip,
            RuleType::Creditcard => RuleTypeV::Creditcard,
            RuleType::Iban => RuleTypeV::Iban,
            RuleType::Userpath => RuleTypeV::Userpath,
            RuleType::Pemkey => RuleTypeV::Pemkey,
            RuleType::UrlAuth => RuleTypeV::UrlAuth,
            RuleType::UsSsn => RuleTypeV::UsSsn,
            RuleType::Password => RuleTypeV::Password,
            RuleType::RedactPair(p) => RuleTypeV::RedactPair { key_pattern: p.key_pattern@ },
            RuleType::Multiple(m) => RuleTypeV::Multiple {
                rules: m.rules.deep_view(),
                hide_inner: m.hide_inner,
            },
            RuleType::Alias(a) => RuleTypeV::Alias { rule: a.rule@, hide_inner: a.hide_inner },
            RuleType::Unknown(tag) => RuleTypeV::Unknown { tag: tag@ },
        }
    }
}

impl DeepView for RuleSpec {
    type V = RuleSpecV;

    open spec fn deep_view(&self) -> RuleSpecV {
        RuleSpecV { ty: self.ty.deep_view(), redaction: self.redaction }
    }
}

impl DeepView for SelectorSpec {
    type V = Seq<char>;

    open spec fn deep_view(&self) -> Seq<char> {
        self.0@
    }
}

impl DeepView for PiiConfig {
    type V = PiiConfigV;

    open spec fn deep_view(&self) -> PiiConfigV {
        PiiConfigV { rules: self.rules.deep_view(), applications: self.applications.deep_view() }
    }
}

/// An explicit, contract-carrying copy of a list of rule identifiers.
pub fn dup_ids(v: &Vec<String>) -> (r: Vec<String>)
    ensures
        r.deep_view() == v.deep_view(),
{
    let mut out: Vec<String> = Vec::new();
    let mut i: usize = 0;
    while i < v.len()
        invariant
            i <= v.len(),
            out@.len() == i,
            forall|j: int| 0 <= j < i ==> out@[j]@ == v@[j]@,
        decreases v.len() - i,
    {
        out.push(v[i].clone());
        i += 1;
    }
    proof {
        assert(out.deep_view() =~= v.deep_view());
    }
    out
}

impl RuleType {
    /// An explicit copy whose contract says that the copy models the same
    /// behaviour as the original.
    pub fn dup(&self) -> (r: RuleType)
        ensures
            r.deep_view() == self.deep_view(),
    {
        match self {
            RuleType::Anything => RuleType::Anything,
            RuleType::Pattern(p) => RuleType::Pattern(PatternRule { pattern: p.pattern.clone() }),
            RuleType::Imei => RuleType::Imei,
            RuleType::Mac => RuleType::Mac,
            RuleType::Uuid => RuleType::Uuid,
            RuleType::Email => RuleType::Email,
            RuleType::Ip => RuleType::Ip,
            RuleType::Creditcard => RuleType::Creditcard,
            RuleType::Iban => RuleType::Iban,
            RuleType::Userpath => RuleType::Userpath,
            RuleType::Pemkey => RuleType::Pemkey,
            RuleType::UrlAuth => RuleType::UrlAuth,
            RuleType::UsSsn => RuleType::UsSsn,
            RuleType::Password => RuleType::Password,
            RuleType::RedactPair(p) => RuleType::RedactPair(
                RedactPairRule { key_pattern: p.key_pattern.clone() },
            ),
            RuleType::Multiple(m) => RuleType::Multiple(
                MultipleRule { rules: dup_ids(&m.rules), hide_inner: m.hide_inner },
            ),
            RuleType::Alias(a) => RuleType::Alias(
                AliasRule { rule: a.rule.clone(), hide_inner: a.hide_inner },
            ),
            RuleType::Unknown(tag) => RuleType::Unknown(tag.clone()),
        }
    }
}

impl SelectorSpec {
    /// An explicit copy whose contract says that the copy models the same
    /// selector as the original.
    pub fn dup(&self) -> (r: SelectorSpec)
        ensures
            r.deep_view() == self.deep_view(),
    {
        SelectorSpec(self.0.clone())
    }
}

} // verus!
