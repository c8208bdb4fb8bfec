//! Errors that say what went wrong and what to do about it.

use vstd::prelude::*;
use crate::json::Json;
use crate::json::JsonMap;
use crate::json::JsonNum;
use crate::json::JsonValue;
use crate::text::str_eq;
use crate::text::concat3;
use crate::text::decimal;
use crate::text::decimal_string;
use crate::text::lowercase;
use crate::text::to_lowercase;

pub mod error_codes;

verus! {

/// What an error says: its fields as plain values.
pub struct ErrorView {
    pub code: Seq<char>,
    pub message: Seq<char>,
    pub suggestion: Option<Seq<char>>,
    pub retryable: Option<bool>,
    pub details: Option<Map<Seq<char>, Json>>,
    pub cause: Option<Box<ErrorView>>,
}

/// Why a command failed.
#[derive(Debug)]
pub struct CommandError {
    /// A stable code for programs to branch on.
    pub code: String,
    /// What went wrong, for people.
    pub message: String,
    /// What the caller can do next.
    pub suggestion: Option<String>,
    /// Whether the same request may succeed later. Absent counts as no.
    pub retryable: Option<bool>,
    /// Technical details.
    pub details: Option<JsonMap>,
    /// The error behind this one.
    pub cause: Option<Box<CommandError>>,
}

impl View for CommandError {
    type V = ErrorView;

    open spec fn view(&self) -> ErrorView
        decreases self,
    {
        ErrorView {
            code: self.code@,
            message: self.message@,
            suggestion: match self.suggestion {
                Some(s) => Some(s@),
                None => None,
            },
            retryable: self.retryable,
            details: match self.details {
                Some(d) => Some(d@),
                None => None,
            },
            cause: match self.cause {
                Some(c) => Some(Box::new((*c).view())),
                None => None,
            },
        }
    }
}

impl Clone for CommandError {
    fn clone(&self) -> (r: Self)
        ensures
            r@ == self@,
        decreases self,
    {
        CommandError {
            code: self.code.clone(),
            message: self.message.clone(),
            suggestion: self.suggestion.clone(),
            retryable: self.retryable,
            details: match &self.details {
                Some(d) => Some(d.clone()),
                None => None,
            },
            cause: match &self.cause {
                Some(c) => Some(Box::new((**c).clone())),
                None => None,
            },
        }
    }
}

impl CommandError {
    /// Whether two errors say the same.
    pub fn same(&self, other: &CommandError) -> (r: bool)
        ensures
            r == (self@ == other@),
        decreases self,
    {
        let suggestion = match (&self.suggestion, &other.suggestion) {
            (Some(a), Some(b)) => str_eq(a.as_str(), b.as_str()),
            (None, None) => true,
            _ => false,
        };
        let retryable = match (self.retryable, other.retryable) {
            (Some(a), Some(b)) => a == b,
            (None, None) => true,
            _ => false,
        };
        let details = match (&self.details, &other.details) {
            (Some(a), Some(b)) => a.same(b),
            (None, None) => true,
            _ => false,
        };
        let cause = match (&self.cause, &other.cause) {
            (Some(a), Some(b)) => (**a).same(&**b),
            (None, None) => true,
            _ => false,
        };
        str_eq(self.code.as_str(), other.code.as_str()) && str_eq(
            self.message.as_str(),
            other.message.as_str(),
        ) && suggestion && retryable && details && cause
    }

    /// An error with a code and a message and nothing else.
    pub fn new(code: &str, message: &str) -> (r: CommandError)
        ensures
            r.code@ == code@,
            r.message@ == message@,
            r.suggestion is None,
            r.retryable is None,
            r.details is None,
            r.cause is None,
    {
        CommandError {
            code: String::from_str(code),
            message: String::from_str(message),
            suggestion: None,
            retryable: None,
            details: None,
            cause: None,
        }
    }

    /// The same error with a suggestion.
    pub fn with_suggestion(self, suggestion: &str) -> (r: CommandError)
        ensures
            r.suggestion is Some,
            r.suggestion->0@ == suggestion@,
            r.code == self.code,
            r.message == self.message,
            r.retryable == self.retryable,
            r.details == self.details,
            r.cause == self.cause,
    {
        let mut r = self;
        r.suggestion = Some(String::from_str(suggestion));
        r
    }

    /// The same error, said to be retryable or not.
    pub fn with_retryable(self, retryable: bool) -> (r: CommandError)
        ensures
            r.retryable == Some(retryable),
            r.code == self.code,
            r.message == self.message,
            r.suggestion == self.suggestion,
            r.details == self.details,
            r.cause == self.cause,
    {
        let mut r = self;
        r.retryable = Some(retryable);
        r
    }

    /// The same error with details.
    pub fn with_details(self, details: JsonMap) -> (r: CommandError)
        ensures
            r.details == Some(details),
            r.code == self.code,
            r.message == self.message,
            r.suggestion == self.suggestion,
            r.retryable == self.retryable,
            r.cause == self.cause,
    {
        let mut r = self;
        r.details = Some(details);
        r
    }

    /// A resource of some type, looked up by an identifier, does not exist.
    pub fn not_found(resource: &str, id: &str) -> (r: CommandError)
        ensures
            r.code@ == "NOT_FOUND"@,
            r.message@ == resource@ + " with ID '"@ + id@ + "' not found"@,
            r.suggestion is Some,
            r.suggestion->0@ == "Verify the "@ + lowercase(resource@) + " ID exists and try again"@,
            r.retryable == Some(false),
            r.details is Some,
            r.details->0@ == Map::<Seq<char>, Json>::empty().insert(
                "resourceType"@,
                Json::String(resource@),
            ).insert("resourceId"@, Json::String(id@)),
            r.cause is None,
    {
        let details = JsonMap::new().with("resourceType", JsonValue::string(resource)).with(
            "resourceId",
            JsonValue::string(id),
        );
        let mut message = concat3(resource, " with ID '", id);
        message.append("' not found");
        let lower = to_lowercase(resource);
        let suggestion = concat3("Verify the ", lower.as_str(), " ID exists and try again");
        CommandError {
            code: String::from_str("NOT_FOUND"),
            message,
            suggestion: Some(suggestion),
            retryable: Some(false),
            details: Some(details),
            cause: None,
        }
    }

    /// The input was malformed or incomplete.
    pub fn validation(message: &str, suggestion: Option<&str>) -> (r: CommandError)
        ensures
            r.code@ == "VALIDATION_ERROR"@,
            r.message@ == message@,
            r.suggestion is Some <==> suggestion is Some,
            suggestion matches Some(s) ==> r.suggestion->0@ == s@,
            r.retryable == Some(false),
            r.details is None,
            r.cause is None,
    {
        let suggestion = match suggestion {
            Some(s) => Some(String::from_str(s)),
            None => None,
        };
        CommandError {
            code: String::from_str("VALIDATION_ERROR"),
            message: String::from_str(message),
            suggestion,
            retryable: Some(false),
            details: None,
            cause: None,
        }
    }

    /// Too many requests; the caller may be told how long to wait.
    pub fn rate_limited(retry_after_seconds: Option<u32>) -> (r: CommandError)
        ensures
            r.code@ == "RATE_LIMITED"@,
            r.message@ == "Rate limit exceeded"@,
            r.suggestion is Some,
            r.suggestion->0@ == match retry_after_seconds {
                Some(secs) => "Wait "@ + decimal(secs as nat) + " seconds and try again"@,
                None => "Wait a moment and try again"@,
            },
            r.retryable == Some(true),
            r.details is Some <==> retry_after_seconds is Some,
            retry_after_seconds matches Some(secs) ==> r.details->0@ == Map::<
                Seq<char>,
                Json,
            >::empty().insert("retryAfterSeconds"@, Json::Number(JsonNum::Int(secs as int))),
            r.cause is None,
    {
        let suggestion = match retry_after_seconds {
            Some(secs) => {
                let digits = decimal_string(secs as u64);
                concat3("Wait ", digits.as_str(), " seconds and try again")
            },
            None => String::from_str("Wait a moment and try again"),
        };
        let details = match retry_after_seconds {
            Some(secs) => {
                Some(JsonMap::new().with("retryAfterSeconds", JsonValue::unsigned(secs as u64)))
            },
            None => None,
        };
        CommandError {
            code: String::from_str("RATE_LIMITED"),
            message: String::from_str("Rate limit exceeded"),
            suggestion: Some(suggestion),
            retryable: Some(true),
            details,
            cause: None,
        }
    }

    /// An operation ran out of time.
    pub fn timeout(operation_name: &str, timeout_ms: u64) -> (r: CommandError)
        ensures
            r.code@ == "TIMEOUT"@,
            r.message@ == "Operation '"@ + operation_name@ + "' timed out after "@ + decimal(
                timeout_ms as nat,
            ) + "ms"@,
            r.suggestion is Some,
            r.suggestion->0@
                == "Try again with a simpler request or contact support if this persists"@,
            r.retryable == Some(true),
            r.details is Some,
            r.details->0@ == Map::<Seq<char>, Json>::empty().insert(
                "operationName"@,
                Json::String(operation_name@),
            ).insert("timeoutMs"@, Json::Number(JsonNum::Int(timeout_ms as int))),
            r.cause is None,
    {
        let details = JsonMap::new().with(
            "operationName",
            JsonValue::string(operation_name),
        ).with("timeoutMs", JsonValue::unsigned(timeout_ms));
        let digits = decimal_string(timeout_ms);
        let mut message = concat3("Operation '", operation_name, "' timed out after ");
        message.append(digits.as_str());
        message.append("ms");
        CommandError {
            code: String::from_str("TIMEOUT"),
            message,
            suggestion: Some(
                String::from_str(
                    "Try again with a simpler request or contact support if this persists",
                ),
            ),
            retryable: Some(true),
            details: Some(details),
            cause: None,
        }
    }

    /// Something failed inside; trying again may help.
    pub fn internal(message: &str) -> (r: CommandError)
        ensures
            r.code@ == "INTERNAL_ERROR"@,
            r.message@ == message@,
            r.suggestion is Some,
            r.suggestion->0@ == "Please try again. If this persists, contact support."@,
            r.retryable == Some(true),
            r.details is None,
            r.cause is None,
    {
        CommandError {
            code: String::from_str("INTERNAL_ERROR"),
            message: String::from_str(message),
            suggestion: Some(
                String::from_str("Please try again. If this persists, contact support."),
            ),
            retryable: Some(true),
            details: None,
            cause: None,
        }
    }
}

/// An error with a code and a message and nothing else.
pub fn create_error(code: &str, message: &str) -> (r: CommandError)
    ensures
        r.code@ == code@,
        r.message@ == message@,
        r.suggestion is None,
        r.retryable is None,
        r.details is None,
        r.cause is None,
{
    CommandError::new(code, message)
}

/// A validation error with the stock suggestion and the details given.
pub fn validation_error(message: &str, details: Option<JsonMap>) -> (r: CommandError)
    ensures
        r.code@ == "VALIDATION_ERROR"@,
        r.message@ == message@,
        r.suggestion is Some,
        r.suggestion->0@ == "Check the input and try again"@,
        r.retryable == Some(false),
        r.details == details,
        r.cause is None,
{
    CommandError {
        code: String::from_str(error_codes::VALIDATION_ERROR),
        message: String::from_str(message),
        suggestion: Some(String::from_str("Check the input and try again")),
        retryable: Some(false),
        details,
        cause: None,
    }
}

/// A resource of some type, looked up by an identifier, does not exist.
pub fn not_found_error(resource_type: &str, resource_id: &str) -> (r: CommandError)
    ensures
        r.code@ == "NOT_FOUND"@,
        r.message@ == resource_type@ + " with ID '"@ + resource_id@ + "' not found"@,
        r.suggestion is Some,
        r.suggestion->0@ == "Verify the "@ + lowercase(resource_type@)
            + " ID exists and try again"@,
        r.retryable == Some(false),
        r.details is Some,
        r.details->0@ == Map::<Seq<char>, Json>::empty().insert(
            "resourceType"@,
            Json::String(resource_type@),
        ).insert("resourceId"@, Json::String(resource_id@)),
        r.cause is None,
{
    CommandError::not_found(resource_type, resource_id)
}

/// Too many requests; the caller may be told how long to wait.
pub fn rate_limit_error(retry_after_seconds: Option<u32>) -> (r: CommandError)
    ensures
        r.code@ == "RATE_LIMITED"@,
        r.message@ == "Rate limit exceeded"@,
        r.suggestion is Some,
        r.suggestion->0@ == match retry_after_seconds {
            Some(secs) => "Wait "@ + decimal(secs as nat) + " seconds and try again"@,
            None => "Wait a moment and try again"@,
        },
        r.retryable == Some(true),
        r.details is Some <==> retry_after_seconds is Some,
        retry_after_seconds matches Some(secs) ==> r.details->0@ == Map::<
            Seq<char>,
            Json,
        >::empty().insert("retryAfterSeconds"@, Json::Number(JsonNum::Int(secs as int))),
        r.cause is None,
{
    CommandError::rate_limited(retry_after_seconds)
}

/// An operation ran out of time.
pub fn timeout_error(operation_name: &str, timeout_ms: u64) -> (r: CommandError)
    ensures
        r.code@ == "TIMEOUT"@,
        r.message@ == "Operation '"@ + operation_name@ + "' timed out after "@ + decimal(
            timeout_ms as nat,
        ) + "ms"@,
        r.suggestion is Some,
        r.suggestion->0@
            == "Try again with a simpler request or contact support if this persists"@,
        r.retryable == Some(true),
        r.details is Some,
        r.details->0@ == Map::<Seq<char>, Json>::empty().insert(
            "operationName"@,
            Json::String(operation_name@),
        ).insert("timeoutMs"@, Json::Number(JsonNum::Int(timeout_ms as int))),
        r.cause is None,
{
    CommandError::timeout(operation_name, timeout_ms)
}

/// Something failed inside; trying again may help.
pub fn internal_error(message: &str) -> (r: CommandError)
    ensures
        r.code@ == "INTERNAL_ERROR"@,
        r.message@ == message@,
        r.suggestion is Some,
        r.suggestion->0@ == "Please try again. If this persists, contact support."@,
        r.retryable == Some(true),
        r.details is None,
        r.cause is None,
{
    CommandError::internal(message)
}

/// Whether a document has the shape of an error: a `code` and a `message`.
pub fn is_command_error(value: &JsonValue) -> (r: bool)
    ensures
        r == (value@.member("code"@) is Some && value@.member("message"@) is Some),
{
    value.get("code").is_some() && value.get("message").is_some()
}

impl PartialEq for CommandError {
    fn eq(&self, other: &CommandError) -> (r: bool) {
        self.same(other)
    }
}

impl vstd::std_specs::cmp::PartialEqSpecImpl for CommandError {
    open spec fn obeys_eq_spec() -> bool {
        true
    }

    open spec fn eq_spec(&self, other: &CommandError) -> bool {
        self@ == other@
    }
}

} // verus!
