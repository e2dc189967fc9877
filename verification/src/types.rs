//! Shared data types: severities, rules, findings, and the raw rule
//! documents that the rule store validates at startup.

use vstd::prelude::*;
use crate::condition::Condition;

verus! {

/// Severity of a rule and of every finding it produces.
#[derive(Clone, Copy, PartialEq, Eq, Structural, Debug)]
pub enum Severity {
    Low,
    Medium,
    High,
    Critical,
}

/// Lower-cases one ASCII byte; other bytes pass through unchanged.
pub open spec fn lower(b: u8) -> u8 {
    if 65 <= b && b <= 90 {
        (b + 32) as u8
    } else {
        b
    }
}

/// The severity named by `s`, compared case-insensitively:
/// "low", "medium", "high" or "critical".
pub open spec fn severity_of(s: Seq<u8>) -> Option<Severity> {
    if s.len() == 3 && lower(s[0]) == 108 && lower(s[1]) == 111 && lower(s[2]) == 119 {
        Some(Severity::Low)
    } else if s.len() == 6 && lower(s[0]) == 109 && lower(s[1]) == 101 && lower(s[2]) == 100
        && lower(s[3]) == 105 && lower(s[4]) == 117 && lower(s[5]) == 109 {
        Some(Severity::Medium)
    } else if s.len() == 4 && lower(s[0]) == 104 && lower(s[1]) == 105 && lower(s[2]) == 103
        && lower(s[3]) == 104 {
        Some(Severity::High)
    } else if s.len() == 8 && lower(s[0]) == 99 && lower(s[1]) == 114 && lower(s[2]) == 105
        && lower(s[3]) == 116 && lower(s[4]) == 105 && lower(s[5]) == 99 && lower(s[6]) == 97
        && lower(s[7]) == 108 {
        Some(Severity::Critical)
    } else {
        None
    }
}

/// Executable ASCII lower-casing of one byte.
pub fn lower_byte(b: u8) -> (r: u8)
    ensures
        r == lower(b),
{
    if 65 <= b && b <= 90 {
        b + 32
    } else {
        b
    }
}

/// Recognizes a severity name, case-insensitively.
pub fn parse_severity(s: &Vec<u8>) -> (r: Option<Severity>)
    ensures
        r == severity_of(s@),
{
    if s.len() == 3 && lower_byte(s[0]) == 108 && lower_byte(s[1]) == 111
        && lower_byte(s[2]) == 119 {
        Some(Severity::Low)
    } else if s.len() == 6 && lower_byte(s[0]) == 109 && lower_byte(s[1]) == 101
        && lower_byte(s[2]) == 100 && lower_byte(s[3]) == 105 && lower_byte(s[4]) == 117
        && lower_byte(s[5]) == 109 {
        Some(Severity::Medium)
    } else if s.len() == 4 && lower_byte(s[0]) == 104 && lower_byte(s[1]) == 105
        && lower_byte(s[2]) == 103 && lower_byte(s[3]) == 104 {
        Some(Severity::High)
    } else if s.len() == 8 && lower_byte(s[0]) == 99 && lower_byte(s[1]) == 114
        && lower_byte(s[2]) == 105 && lower_byte(s[3]) == 116 && lower_byte(s[4]) == 105
        && lower_byte(s[5]) == 99 && lower_byte(s[6]) == 97 && lower_byte(s[7]) == 108 {
        Some(Severity::Critical)
    } else {
        None
    }
}

/// The object a finding points at.
#[derive(Debug, Clone)]
pub struct ResourceRef {
    pub kind: Vec<u8>,
    pub namespace: Vec<u8>,
    pub name: Vec<u8>,
}

/// One detected rule violation on a specific resource at a point in
/// time; produced once and never mutated, and never deduplicated.
#[derive(Debug, Clone)]
pub struct Finding {
    pub severity: Severity,
    pub category: Vec<u8>,
    pub description: Vec<u8>,
    pub resource: ResourceRef,
    pub suggestion: Vec<u8>,
    pub timestamp: u64,
}

/// The resource kinds one rule applies to.
#[derive(Debug)]
pub enum KindScope {
    All,
    Kinds(Vec<Vec<u8>>),
}

/// One validated, compiled rule; immutable once loaded.
#[derive(Debug)]
pub struct Rule {
    pub name: Vec<u8>,
    pub description: Vec<u8>,
    pub category: Vec<u8>,
    pub severity: Severity,
    pub kinds: KindScope,
    pub condition: Condition,
    pub suggestion: Vec<u8>,
}

} // verus!
