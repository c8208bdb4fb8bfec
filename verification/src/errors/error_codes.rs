//! Error codes that commands share.

use vstd::prelude::*;

verus! {

pub const VALIDATION_ERROR: &'static str = "VALIDATION_ERROR";

pub const INVALID_INPUT: &'static str = "INVALID_INPUT";

pub const MISSING_REQUIRED_FIELD: &'static str = "MISSING_REQUIRED_FIELD";

pub const INVALID_FORMAT: &'static str = "INVALID_FORMAT";

pub const NOT_FOUND: &'static str = "NOT_FOUND";

pub const ALREADY_EXISTS: &'static str = "ALREADY_EXISTS";

pub const CONFLICT: &'static str = "CONFLICT";

pub const UNAUTHORIZED: &'static str = "UNAUTHORIZED";

pub const FORBIDDEN: &'static str = "FORBIDDEN";

pub const TOKEN_EXPIRED: &'static str = "TOKEN_EXPIRED";

pub const RATE_LIMITED: &'static str = "RATE_LIMITED";

pub const QUOTA_EXCEEDED: &'static str = "QUOTA_EXCEEDED";

pub const SERVICE_UNAVAILABLE: &'static str = "SERVICE_UNAVAILABLE";

pub const TIMEOUT: &'static str = "TIMEOUT";

pub const CONNECTION_ERROR: &'static str = "CONNECTION_ERROR";

pub const INTERNAL_ERROR: &'static str = "INTERNAL_ERROR";

pub const NOT_IMPLEMENTED: &'static str = "NOT_IMPLEMENTED";

pub const UNKNOWN_ERROR: &'static str = "UNKNOWN_ERROR";

pub const COMMAND_NOT_FOUND: &'static str = "COMMAND_NOT_FOUND";

pub const INVALID_COMMAND_ARGS: &'static str = "INVALID_COMMAND_ARGS";

pub const COMMAND_CANCELLED: &'static str = "COMMAND_CANCELLED";

} // verus!
