//! Value types of the validation layer: the error taxonomy, rule
//! descriptors, and the limits of the built-in field validators. The
//! validators' work on raw documents lives with the embedding application.

use vstd::prelude::*;
use vstd::string::StringSliceAdditionalSpecFns;
use vstd::utf8::encode_utf8;

use crate::text::contains_sub;
use crate::text::lower_of;
use crate::text::lowercase;
use crate::text::str_contains;
use crate::text::upper_of;
use crate::text::uppercase;

verus! {

/// The ways validating an entity can fail.
#[derive(Debug, Clone)]
pub enum ValidationError {
    RequiredFieldMissing { field: String },
    InvalidFormat { field: String, reason: String },
    OutOfRange { field: String, value: String },
    InvalidType { field: String, expected: String, actual: String },
    SecurityViolation { field: String, reason: String },
    BusinessRuleViolation { rule: String, reason: String },
    CrossFieldValidation { fields: Vec<String>, reason: String },
    CustomValidationFailed { validator: String, reason: String },
}

/// The operation being validated.
#[derive(Debug, Clone, PartialEq, Eq, Structural)]
pub enum ValidationOperation {
    Create,
    Update,
    Delete,
    Query,
}

/// Comparison operator of a conditional rule.
#[derive(Debug, Clone, PartialEq, Eq, Structural)]
pub enum ConditionOperator {
    Equals,
    NotEquals,
    Contains,
    NotContains,
    GreaterThan,
    LessThan,
    In,
    NotIn,
}

/// A rule relating several fields of one entity.
#[derive(Debug, Clone)]
pub struct CrossFieldRule {
    pub name: String,
    pub fields: Vec<String>,
    pub validator: String,
    pub error_message: String,
}

/// A domain rule with a severity.
#[derive(Debug, Clone)]
pub struct BusinessRule {
    pub name: String,
    pub description: String,
    pub validator: String,
    pub severity: RuleSeverity,
    pub error_message: String,
}

/// A rule gating a field on classification and compartments.
#[derive(Debug, Clone)]
pub struct SecurityRule {
    pub name: String,
    pub field: String,
    pub classification_required: String,
    pub compartments_required: Vec<String>,
    pub error_message: String,
}

/// How hard a rule violation counts.
#[derive(Debug, Clone, PartialEq, Eq, Structural)]
pub enum RuleSeverity {
    Error,
    Warning,
    Info,
}

/// Length limits on a string field.
#[derive(Debug)]
pub struct StringLengthValidator {
    pub min_length: usize,
    pub max_length: usize,
}

impl StringLengthValidator {
    /// A validator accepting lengths from `min_length` to `max_length`.
    pub fn new(min_length: usize, max_length: usize) -> (r: StringLengthValidator)
        ensures
            r.min_length == min_length,
            r.max_length == max_length,
    {
        StringLengthValidator { min_length, max_length }
    }

    /// Whether a string of `len` bytes passes the limits.
    pub fn length_ok(&self, len: usize) -> (r: bool)
        ensures
            r == (self.min_length <= len && len <= self.max_length),
    {
        self.min_length <= len && len <= self.max_length
    }
}

/// Checks that a field is a well-formed identifier; the format test on raw
/// text lives with the embedding application.
#[derive(Debug)]
pub struct UuidValidator;

impl UuidValidator {
    /// The identifier validator; it carries no limits of its own.
    pub fn new() -> (r: UuidValidator) {
        UuidValidator
    }
}

/// Checks that a field is a well-formed date; the format test on raw text
/// lives with the embedding application.
#[derive(Debug)]
pub struct DateValidator;

impl DateValidator {
    /// The date validator; it carries no limits of its own.
    pub fn new() -> (r: DateValidator) {
        DateValidator
    }
}


/// A scan of the uppercased text for the database-injection patterns the
/// injection validator rejects.
pub open spec fn sql_suspicious(u: Seq<char>) -> bool {
    ||| contains_sub(encode_utf8(u), encode_utf8("'; DROP TABLE"@))
    ||| contains_sub(encode_utf8(u), encode_utf8("' OR '1'='1"@))
    ||| contains_sub(encode_utf8(u), encode_utf8("UNION SELECT"@))
    ||| contains_sub(encode_utf8(u), encode_utf8("INSERT INTO"@))
    ||| contains_sub(encode_utf8(u), encode_utf8("DELETE FROM"@))
    ||| contains_sub(encode_utf8(u), encode_utf8("UPDATE SET"@))
    ||| contains_sub(encode_utf8(u), encode_utf8("EXEC("@))
    ||| contains_sub(encode_utf8(u), encode_utf8("sp_"@))
    ||| contains_sub(encode_utf8(u), encode_utf8("xp_"@))
    ||| contains_sub(encode_utf8(u), encode_utf8("--"@))
    ||| contains_sub(encode_utf8(u), encode_utf8("/*"@))
    ||| contains_sub(encode_utf8(u), encode_utf8("*/"@))
}

/// A scan of the lowercased text for the script-injection patterns the
/// script validator rejects.
pub open spec fn xss_suspicious(l: Seq<char>) -> bool {
    ||| contains_sub(encode_utf8(l), encode_utf8("<script"@))
    ||| contains_sub(encode_utf8(l), encode_utf8("</script>"@))
    ||| contains_sub(encode_utf8(l), encode_utf8("javascript:"@))
    ||| contains_sub(encode_utf8(l), encode_utf8("onload="@))
    ||| contains_sub(encode_utf8(l), encode_utf8("onerror="@))
    ||| contains_sub(encode_utf8(l), encode_utf8("onclick="@))
    ||| contains_sub(encode_utf8(l), encode_utf8("onmouseover="@))
    ||| contains_sub(encode_utf8(l), encode_utf8("onfocus="@))
    ||| contains_sub(encode_utf8(l), encode_utf8("onblur="@))
    ||| contains_sub(encode_utf8(l), encode_utf8("onchange="@))
    ||| contains_sub(encode_utf8(l), encode_utf8("onsubmit="@))
    ||| contains_sub(encode_utf8(l), encode_utf8("vbscript:"@))
    ||| contains_sub(encode_utf8(l), encode_utf8("data:text/html"@))
}

/// A scan of the lowercased text for the path-traversal patterns the
/// traversal validator rejects.
pub open spec fn path_suspicious(l: Seq<char>) -> bool {
    ||| contains_sub(encode_utf8(l), encode_utf8("../"@))
    ||| contains_sub(encode_utf8(l), encode_utf8("..\\"@))
    ||| contains_sub(encode_utf8(l), encode_utf8("..%2f"@))
    ||| contains_sub(encode_utf8(l), encode_utf8("..%5c"@))
    ||| contains_sub(encode_utf8(l), encode_utf8("%2e%2e%2f"@))
    ||| contains_sub(encode_utf8(l), encode_utf8("%2e%2e%5c"@))
}

/// Rejects strings carrying database-injection patterns, scanning the
/// uppercased text.
#[derive(Debug)]
pub struct SqlInjectionValidator;

impl SqlInjectionValidator {
    /// The injection validator; it carries no limits of its own.
    pub fn new() -> (r: SqlInjectionValidator) {
        SqlInjectionValidator
    }

    /// Scans the text, uppercased, for injection patterns: an error
    /// exactly when one occurs.
    pub fn validate(&self, text: &str) -> (r: Result<(), ValidationError>)
        ensures
            r is Err <==> sql_suspicious(upper_of(text@)),
    {
        let upper = uppercase(text);
        let u = upper.as_str();
        if str_contains(u, "'; DROP TABLE") || str_contains(u, "' OR '1'='1") || str_contains(u, "UNION SELECT") || str_contains(u, "INSERT INTO") || str_contains(u, "DELETE FROM") || str_contains(u, "UPDATE SET") || str_contains(u, "EXEC(") || str_contains(u, "sp_") || str_contains(u, "xp_") || str_contains(u, "--") || str_contains(u, "/*") || str_contains(u, "*/") {
            Err(ValidationError::SecurityViolation {
                field: "sql_injection".to_owned(),
                reason: "contains a potential SQL injection pattern".to_owned(),
            })
        } else {
            Ok(())
        }
    }
}

/// Rejects strings carrying script-injection patterns, scanning the
/// lowercased text.
#[derive(Debug)]
pub struct XssValidator;

impl XssValidator {
    /// The script-injection validator; it carries no limits of its own.
    pub fn new() -> (r: XssValidator) {
        XssValidator
    }

    /// Scans the text, lowercased, for script-injection patterns: an
    /// error exactly when one occurs.
    pub fn validate(&self, text: &str) -> (r: Result<(), ValidationError>)
        ensures
            r is Err <==> xss_suspicious(lower_of(text@)),
    {
        let lower = lowercase(text);
        let l = lower.as_str();
        if str_contains(l, "<script") || str_contains(l, "</script>") || str_contains(l, "javascript:") || str_contains(l, "onload=") || str_contains(l, "onerror=") || str_contains(l, "onclick=") || str_contains(l, "onmouseover=") || str_contains(l, "onfocus=") || str_contains(l, "onblur=") || str_contains(l, "onchange=") || str_contains(l, "onsubmit=") || str_contains(l, "vbscript:") || str_contains(l, "data:text/html") {
            Err(ValidationError::SecurityViolation {
                field: "xss".to_owned(),
                reason: "contains a potential XSS pattern".to_owned(),
            })
        } else {
            Ok(())
        }
    }
}

/// Rejects strings carrying path-traversal patterns, scanning the
/// lowercased text.
#[derive(Debug)]
pub struct PathTraversalValidator;

impl PathTraversalValidator {
    /// The traversal validator; it carries no limits of its own.
    pub fn new() -> (r: PathTraversalValidator) {
        PathTraversalValidator
    }

    /// Scans the text, lowercased, for traversal patterns: an error
    /// exactly when one occurs.
    pub fn validate(&self, text: &str) -> (r: Result<(), ValidationError>)
        ensures
            r is Err <==> path_suspicious(lower_of(text@)),
    {
        let lower = lowercase(text);
        let l = lower.as_str();
        if str_contains(l, "../") || str_contains(l, "..\\") || str_contains(l, "..%2f") || str_contains(l, "..%5c") || str_contains(l, "%2e%2e%2f") || str_contains(l, "%2e%2e%5c") {
            Err(ValidationError::SecurityViolation {
                field: "path_traversal".to_owned(),
                reason: "contains a potential path traversal pattern".to_owned(),
            })
        } else {
            Ok(())
        }
    }
}

} // verus!
