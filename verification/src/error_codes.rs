//! JSON-RPC and application error codes.
use vstd::prelude::*;

verus! {

// Standard JSON-RPC codes.
pub const PARSE_ERROR: i64 = -32700;

pub const INVALID_REQUEST: i64 = -32600;

pub const METHOD_NOT_FOUND: i64 = -32601;

pub const INVALID_PARAMS: i64 = -32602;

pub const INTERNAL_ERROR: i64 = -32603;

// Application-defined codes, in the positive space.
/// A requested path does not exist.
pub const NOT_FOUND: i64 = 1;

/// The workspace is not a git repository, or `git` failed.
pub const NOT_A_REPO: i64 = 2;

/// A filesystem operation failed.
pub const IO_ERROR: i64 = 3;

/// A path escaped the workspace root.
pub const FORBIDDEN_PATH: i64 = 4;

/// The standard codes are those of JSON-RPC, and the application's own are apart
/// from them and from each other.
pub proof fn law_error_codes_are_apart()
    ensures
        -32700 == PARSE_ERROR,
        -32603 <= INTERNAL_ERROR < INVALID_PARAMS < METHOD_NOT_FOUND < INVALID_REQUEST <= -32600,
        NOT_FOUND == 1,
        NOT_A_REPO == 2,
        IO_ERROR == 3,
        FORBIDDEN_PATH == 4,
{
}

} // verus!
