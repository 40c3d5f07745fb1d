//! The error codes of the node's interface: a number and a stable name for each.
use vstd::prelude::*;

verus! {

/// Why a request was refused.
#[derive(Debug, Clone, Copy, PartialEq, Eq, Structural)]
pub enum ErrorCode {
    /// The request is not one.
    InvalidRequest,
    /// There is no such method.
    MethodNotFound,
    /// The parameters are not what the method takes.
    InvalidParams,
    /// The node could not answer the call.
    DispatchFailed,
    /// The upstream could not be reached or did not answer.
    UpstreamError,
    /// The caller presented no credential that is accepted.
    Unauthorized,
    /// What was asked for is not there on this machine.
    NotSupported,
    /// What was asked for failed.
    ControlError,
    /// Too many requests came in.
    ControlIngressLimited,
    /// Too many requests would go out to the chain.
    WalletRateLimited,
}

impl ErrorCode {
    /// The number.
    pub open spec fn number(self) -> int {
        match self {
            ErrorCode::InvalidRequest => -32600,
            ErrorCode::MethodNotFound => -32601,
            ErrorCode::InvalidParams => -32602,
            ErrorCode::DispatchFailed => -32000,
            ErrorCode::UpstreamError => -32010,
            ErrorCode::Unauthorized => -32030,
            ErrorCode::NotSupported => -32031,
            ErrorCode::ControlError => -32032,
            ErrorCode::ControlIngressLimited => -32033,
            ErrorCode::WalletRateLimited => -32034,
        }
    }

    /// The name.
    pub open spec fn symbol(self) -> Seq<char> {
        match self {
            ErrorCode::InvalidRequest => "INVALID_REQUEST"@,
            ErrorCode::MethodNotFound => "METHOD_NOT_FOUND"@,
            ErrorCode::InvalidParams => "INVALID_PARAMS"@,
            ErrorCode::DispatchFailed => "DISPATCH_FAILED"@,
            ErrorCode::UpstreamError => "UPSTREAM_ERROR"@,
            ErrorCode::Unauthorized => "UNAUTHORIZED"@,
            ErrorCode::NotSupported => "NOT_SUPPORTED"@,
            ErrorCode::ControlError => "CONTROL_ERROR"@,
            ErrorCode::ControlIngressLimited => "CONTROL_INGRESS_LIMITED"@,
            ErrorCode::WalletRateLimited => "WALLET_RATE_LIMITED"@,
        }
    }

    /// The number.
    pub fn code(self) -> (r: i64)
        ensures
            r == self.number(),
    {
        match self {
            ErrorCode::InvalidRequest => -32600,
            ErrorCode::MethodNotFound => -32601,
            ErrorCode::InvalidParams => -32602,
            ErrorCode::DispatchFailed => -32000,
            ErrorCode::UpstreamError => -32010,
            ErrorCode::Unauthorized => -32030,
            ErrorCode::NotSupported => -32031,
            ErrorCode::ControlError => -32032,
            ErrorCode::ControlIngressLimited => -32033,
            ErrorCode::WalletRateLimited => -32034,
        }
    }

    /// The name.
    pub fn name(self) -> (r: &'static str)
        ensures
            r@ == self.symbol(),
    {
        match self {
            ErrorCode::InvalidRequest => "INVALID_REQUEST",
            ErrorCode::MethodNotFound => "METHOD_NOT_FOUND",
            ErrorCode::InvalidParams => "INVALID_PARAMS",
            ErrorCode::DispatchFailed => "DISPATCH_FAILED",
            ErrorCode::UpstreamError => "UPSTREAM_ERROR",
            ErrorCode::Unauthorized => "UNAUTHORIZED",
            ErrorCode::NotSupported => "NOT_SUPPORTED",
            ErrorCode::ControlError => "CONTROL_ERROR",
            ErrorCode::ControlIngressLimited => "CONTROL_INGRESS_LIMITED",
            ErrorCode::WalletRateLimited => "WALLET_RATE_LIMITED",
        }
    }
}

/// **Law: a code says which refusal it was.** No two refusals share a number, so a caller tells the
/// bound on what comes in from the bound on what goes out.
pub proof fn law_codes_are_distinct(a: ErrorCode, b: ErrorCode)
    requires
        a.number() == b.number(),
    ensures
        a == b,
{
}

/// **Law: each refusal has the number and the name of its kind.** The three that the protocol defines keep
/// its numbers, and the node's own lie in the range that is left to servers.
pub proof fn law_each_refusal_has_a_number_and_a_name(c: ErrorCode)
    ensures
        c == ErrorCode::InvalidRequest <==> c.number() == -32600,
        c == ErrorCode::MethodNotFound <==> c.number() == -32601,
        c == ErrorCode::InvalidParams <==> c.number() == -32602,
        c == ErrorCode::DispatchFailed <==> c.number() == -32000,
        c == ErrorCode::UpstreamError <==> c.number() == -32010,
        c == ErrorCode::Unauthorized <==> c.number() == -32030,
        c == ErrorCode::NotSupported <==> c.number() == -32031,
        c == ErrorCode::ControlError <==> c.number() == -32032,
        c == ErrorCode::ControlIngressLimited <==> c.number() == -32033,
        c == ErrorCode::WalletRateLimited <==> c.number() == -32034,
        ErrorCode::InvalidRequest.symbol() == "INVALID_REQUEST"@,
        ErrorCode::MethodNotFound.symbol() == "METHOD_NOT_FOUND"@,
        ErrorCode::InvalidParams.symbol() == "INVALID_PARAMS"@,
        ErrorCode::DispatchFailed.symbol() == "DISPATCH_FAILED"@,
        ErrorCode::UpstreamError.symbol() == "UPSTREAM_ERROR"@,
        ErrorCode::Unauthorized.symbol() == "UNAUTHORIZED"@,
        ErrorCode::NotSupported.symbol() == "NOT_SUPPORTED"@,
        ErrorCode::ControlError.symbol() == "CONTROL_ERROR"@,
        ErrorCode::ControlIngressLimited.symbol() == "CONTROL_INGRESS_LIMITED"@,
        ErrorCode::WalletRateLimited.symbol() == "WALLET_RATE_LIMITED"@,
{
}

} // verus!
