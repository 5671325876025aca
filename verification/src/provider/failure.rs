//! Shared OpenCode Go failure classification.
//!
//! One place turns HTTP status and transport conditions into the frozen
//! provider-neutral [`ErrorCode`]s with BrainRoot's plain-language messages.
//! Classification never reads a response body and never surfaces provider
//! text.
use vstd::prelude::*;
use super::contract::ErrorCode;
use crate::text::{decimal, decimal_seq, join2, owned};

verus! {

#[derive(Debug, Clone, Copy, PartialEq, Eq, Structural)]
pub enum GoFailure {
    InvalidKey { status: u16 },
    SubscriptionUnavailable { status: u16 },
    UnsupportedModel { status: u16 },
    UsageLimitReached { status: u16 },
    Timeout,
    NetworkUnavailable,
    ProviderFailure { status: u16 },
    MalformedResponse,
}

/// The documented status table.
pub open spec fn failure_for_status(status: u16) -> GoFailure {
    if status == 401 {
        GoFailure::InvalidKey { status }
    } else if status == 402 || status == 403 {
        GoFailure::SubscriptionUnavailable { status }
    } else if status == 404 {
        GoFailure::UnsupportedModel { status }
    } else if status == 429 {
        GoFailure::UsageLimitReached { status }
    } else {
        GoFailure::ProviderFailure { status }
    }
}

pub open spec fn failure_code(failure: GoFailure) -> ErrorCode {
    match failure {
        GoFailure::InvalidKey { .. } | GoFailure::SubscriptionUnavailable { .. } => ErrorCode::AuthenticationFailed,
        GoFailure::UnsupportedModel { .. } => ErrorCode::InvalidInput,
        GoFailure::UsageLimitReached { .. } => ErrorCode::RateLimited,
        GoFailure::Timeout => ErrorCode::TimedOut,
        GoFailure::NetworkUnavailable | GoFailure::ProviderFailure { .. } => ErrorCode::ProviderUnavailable,
        GoFailure::MalformedResponse => ErrorCode::MalformedResponse,
    }
}

pub open spec fn failure_text(failure: GoFailure) -> Seq<char> {
    match failure {
        GoFailure::InvalidKey { .. } => "The provider rejected the credential. Check your OpenCode Go key and try again."@,
        GoFailure::SubscriptionUnavailable { .. } => "This OpenCode Go subscription is not active for this account. Check the subscription in the OpenCode Zen console."@,
        GoFailure::UnsupportedModel { .. } => "The selected model is not available on OpenCode Go. Choose a different model and try again."@,
        GoFailure::UsageLimitReached { .. } => "The OpenCode Go usage limit was reached for this period. Try again later or choose another model."@,
        GoFailure::Timeout => "The provider took too long to respond. Try again."@,
        GoFailure::NetworkUnavailable => "The provider could not be reached. Check your connection and try again."@,
        GoFailure::ProviderFailure { status } => if 500 <= status && status <= 599 {
            "The provider is temporarily unavailable. Try again shortly."@
        } else {
            "The provider answered with status "@ + decimal_seq(status as nat) + ". Try again."@
        },
        GoFailure::MalformedResponse => "The provider returned an unreadable response. Try again."@,
    }
}

/// How an HTTP call failed before a body could be read: the server answered
/// with a non-success status, the call ran out of time, or the transport
/// failed in any other way.
#[derive(Debug, Clone, Copy, PartialEq, Eq, Structural)]
pub enum TransportError {
    Status(u16),
    Timeout,
    Other,
}

pub open spec fn failure_for_transport(error: TransportError) -> GoFailure {
    match error {
        TransportError::Status(status) => failure_for_status(status),
        TransportError::Timeout => GoFailure::Timeout,
        TransportError::Other => GoFailure::NetworkUnavailable,
    }
}

impl GoFailure {
    /// Classifies a failed HTTP call: a status by the status table, a timeout
    /// as such, anything else as an unreachable network.
    pub fn from_transport(error: TransportError) -> (r: Self)
        ensures
            r == failure_for_transport(error),
    {
        match error {
            TransportError::Status(status) => GoFailure::from_status(status),
            TransportError::Timeout => GoFailure::Timeout,
            TransportError::Other => GoFailure::NetworkUnavailable,
        }
    }

    /// Classifies a non-success HTTP status. Unknown values stay visible as
    /// provider failures with their number.
    pub fn from_status(status: u16) -> (r: Self)
        ensures
            r == failure_for_status(status),
    {
        match status {
            401 => GoFailure::InvalidKey { status },
            402 | 403 => GoFailure::SubscriptionUnavailable { status },
            404 => GoFailure::UnsupportedModel { status },
            429 => GoFailure::UsageLimitReached { status },
            _ => GoFailure::ProviderFailure { status },
        }
    }

    pub fn code(&self) -> (r: ErrorCode)
        ensures
            r == failure_code(*self),
    {
        match self {
            GoFailure::InvalidKey { .. } | GoFailure::SubscriptionUnavailable { .. } => ErrorCode::AuthenticationFailed,
            GoFailure::UnsupportedModel { .. } => ErrorCode::InvalidInput,
            GoFailure::UsageLimitReached { .. } => ErrorCode::RateLimited,
            GoFailure::Timeout => ErrorCode::TimedOut,
            GoFailure::NetworkUnavailable | GoFailure::ProviderFailure { .. } => ErrorCode::ProviderUnavailable,
            GoFailure::MalformedResponse => ErrorCode::MalformedResponse,
        }
    }

    pub fn message(&self) -> (r: String)
        ensures
            r@ == failure_text(*self),
    {
        match self {
            GoFailure::InvalidKey { .. } => owned("The provider rejected the credential. Check your OpenCode Go key and try again."),
            GoFailure::SubscriptionUnavailable { .. } => owned("This OpenCode Go subscription is not active for this account. Check the subscription in the OpenCode Zen console."),
            GoFailure::UnsupportedModel { .. } => owned("The selected model is not available on OpenCode Go. Choose a different model and try again."),
            GoFailure::UsageLimitReached { .. } => owned("The OpenCode Go usage limit was reached for this period. Try again later or choose another model."),
            GoFailure::Timeout => owned("The provider took too long to respond. Try again."),
            GoFailure::NetworkUnavailable => owned("The provider could not be reached. Check your connection and try again."),
            GoFailure::ProviderFailure { status } => {
                if 500 <= *status && *status <= 599 {
                    owned("The provider is temporarily unavailable. Try again shortly.")
                } else {
                    let r = join2("The provider answered with status ", decimal(*status as u64).as_str());
                    join2(r.as_str(), ". Try again.")
                }
            },
            GoFailure::MalformedResponse => owned("The provider returned an unreadable response. Try again."),
        }
    }
}

/// Every status classifies to a failure that keeps the status and maps to a
/// neutral code; `402` and `403` share one outcome and one message.
pub proof fn lemma_status_classification(status: u16)
    ensures
        failure_for_status(status) matches GoFailure::InvalidKey { status: s } ==> s == status,
        (status == 402 || status == 403) ==> failure_text(failure_for_status(status))
            == failure_text(failure_for_status(402)),
        (status != 401 && status != 402 && status != 403 && status != 404 && status != 429)
            ==> failure_code(failure_for_status(status)) == ErrorCode::ProviderUnavailable,
{
}

} // verus!
