//! The built-in rule table.
//!
//! A process-wide, read-only table of named detector rules, consulted when a
//! policy's own rule table does not define an identifier. Every built-in
//! detector defers its redaction action (`Redaction::Default`), so a wrapper
//! rule — or nothing — decides what happens to a match.

use vstd::prelude::*;

use crate::order::str_eq;
use crate::rules::{Redaction, RuleSpec, RuleSpecV, RuleType, RuleTypeV};

verus! {

/// The specification a built-in identifier resolves to, if any.
pub open spec fn spec_builtin_rule(id: Seq<char>) -> Option<RuleSpecV> {
    if id == "@anything"@ {
        Some(RuleSpecV { ty: RuleTypeV::Anything, redaction: Redaction::Default })
    } else if id == "@imei"@ {
        Some(RuleSpecV { ty: RuleTypeV::Imei, redaction: Redaction::Default })
    } else if id == "@mac"@ {
        Some(RuleSpecV { ty: RuleTypeV::Mac, redaction: Redaction::Default })
    } else if id == "@uuid"@ {
        Some(RuleSpecV { ty: RuleTypeV::Uuid, redaction: Redaction::Default })
    } else if id == "@email"@ {
        Some(RuleSpecV { ty: RuleTypeV::Email, redaction: Redaction::Default })
    } else if id == "@ip"@ {
        Some(RuleSpecV { ty: RuleTypeV::Ip, redaction: Redaction::Default })
    } else if id == "@creditcard"@ {
        Some(RuleSpecV { ty: RuleTypeV::Creditcard, redaction: Redaction::Default })
    } else if id == "@iban"@ {
        Some(RuleSpecV { ty: RuleTypeV::Iban, redaction: Redaction::Default })
    } else if id == "@userpath"@ {
        Some(RuleSpecV { ty: RuleTypeV::Userpath, redaction: Redaction::Default })
    } else if id == "@pemkey"@ {
        Some(RuleSpecV { ty: RuleTypeV::Pemkey, redaction: Redaction::Default })
    } else if id == "@urlauth"@ {
        Some(RuleSpecV { ty: RuleTypeV::UrlAuth, redaction: Redaction::Default })
    } else if id == "@usssn"@ {
        Some(RuleSpecV { ty: RuleTypeV::UsSsn, redaction: Redaction::Default })
    } else if id == "@password"@ {
        Some(RuleSpecV { ty: RuleTypeV::Password, redaction: Redaction::Default })
    } else {
        None
    }
}

/// Looks an identifier up in the built-in rule table.
pub fn builtin_rule(id: &str) -> (r: Option<RuleSpec>)
    ensures
        r.deep_view() == spec_builtin_rule(id@),
{
    if str_eq(id, "@anything") {
        Some(RuleSpec { ty: RuleType::Anything, redaction: Redaction::Default })
    } else if str_eq(id, "@imei") {
        Some(RuleSpec { ty: RuleType::Imei, redaction: Redaction::Default })
    } else if str_eq(id, "@mac") {
        Some(RuleSpec { ty: RuleType::Mac, redaction: Redaction::Default })
    } else if str_eq(id, "@uuid") {
        Some(RuleSpec { ty: RuleType::Uuid, redaction: Redaction::Default })
    } else if str_eq(id, "@email") {
        Some(RuleSpec { ty: RuleType::Email, redaction: Redaction::Default })
    } else if str_eq(id, "@ip") {
        Some(RuleSpec { ty: RuleType::Ip, redaction: Redaction::Default })
    } else if str_eq(id, "@creditcard") {
        Some(RuleSpec { ty: RuleType::Creditcard, redaction: Redaction::Default })
    } else if str_eq(id, "@iban") {
        Some(RuleSpec { ty: RuleType::Iban, redaction: Redaction::Default })
    } else if str_eq(id, "@userpath") {
        Some(RuleSpec { ty: RuleType::Userpath, redaction: Redaction::Default })
    } else if str_eq(id, "@pemkey") {
        Some(RuleSpec { ty: RuleType::Pemkey, redaction: Redaction::Default })
    } else if str_eq(id, "@urlauth") {
        Some(RuleSpec { ty: RuleType::UrlAuth, redaction: Redaction::Default })
    } else if str_eq(id, "@usssn") {
        Some(RuleSpec { ty: RuleType::UsSsn, redaction: Redaction::Default })
    } else if str_eq(id, "@password") {
        Some(RuleSpec { ty: RuleType::Password, redaction: Redaction::Default })
    } else {
        None
    }
}

} // verus!
