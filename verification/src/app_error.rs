use vstd::prelude::*;
use vstd::string::StringExecFns;
use crate::address::Address;
use crate::bytes::decimal_text;
use crate::bytes::u64_to_decimal;
use crate::errors::FetcherError;
use crate::errors::SubscriptionError;
use crate::network::EvmNetwork;

verus! {

/// Why a request was refused.
#[derive(Debug, Clone)]
pub enum AppError {
    Internal(String),
    BadRequest(String),
    ProviderIsNotDefined(EvmNetwork),
    NoSession(EvmNetwork, Address),
    TokenLimitExceeded,
    WethAddressIsNotDefined(EvmNetwork),
}

/// The body of an error response.
#[derive(Debug)]
pub struct ErrorBody {
    pub code: u16,
    pub message: String,
}

/// A failure to open a stream of events.
#[derive(Debug)]
pub struct StreamError {
    pub code: u16,
    pub message: String,
}

/// The body of the response to a request for one balance.
#[derive(Debug)]
pub struct BalanceResponse {
    pub balance: String,
}

/// What is said of a token list that failed to load.
pub open spec fn fetch_failed_text(e: FetcherError) -> Seq<char> {
    "unable to load token list "@ + e.url_text() + ": "@ + e.reason_text()
}

/// What is said of a token list that failed to load.
pub fn fetch_failed_message(e: &FetcherError) -> (s: String)
    ensures
        s@ == fetch_failed_text(*e),
{
    match e {
        FetcherError::UnableToLoadList(url, reason) => {
            let mut s = String::from_str("unable to load token list ");
            s.append(url.as_str());
            s.append(": ");
            s.append(reason.as_str());
            s
        },
    }
}

impl AppError {
    /// The HTTP status that the error is answered with.
    pub open spec fn spec_status_code(self) -> u16 {
        match self {
            AppError::Internal(_) => 500,
            AppError::BadRequest(_) => 400,
            AppError::ProviderIsNotDefined(_) => 404,
            AppError::NoSession(_, _) => 404,
            AppError::TokenLimitExceeded => 400,
            AppError::WethAddressIsNotDefined(_) => 500,
        }
    }

    /// The message that the error is answered with.
    pub open spec fn text(self) -> Seq<char> {
        match self {
            AppError::Internal(message) => message@,
            AppError::BadRequest(message) => message@,
            AppError::ProviderIsNotDefined(network) => "Provider is not defined for network "@
                + decimal_text(network.spec_chain_id() as nat),
            AppError::NoSession(network, owner) => "No session with network("@ + decimal_text(
                network.spec_chain_id() as nat,
            ) + ") and owner("@ + owner.wire_text() + ")"@,
            AppError::TokenLimitExceeded => "Token limit exceeded"@,
            AppError::WethAddressIsNotDefined(network) => "WETH address is not defined for network: "@
                + decimal_text(network.spec_chain_id() as nat),
        }
    }

    /// The HTTP status that the error is answered with.
    pub fn status_code(&self) -> (code: u16)
        ensures
            code == self.spec_status_code(),
    {
        match self {
            AppError::Internal(_) => 500,
            AppError::BadRequest(_) => 400,
            AppError::ProviderIsNotDefined(_) => 404,
            AppError::NoSession(_, _) => 404,
            AppError::TokenLimitExceeded => 400,
            AppError::WethAddressIsNotDefined(_) => 500,
        }
    }

    /// The message that the error is answered with.
    pub fn message(&self) -> (s: String)
        ensures
            s@ == self.text(),
    {
        match self {
            AppError::Internal(message) => message.clone(),
            AppError::BadRequest(message) => message.clone(),
            AppError::ProviderIsNotDefined(network) => {
                let mut s = String::from_str("Provider is not defined for network ");
                s.append(u64_to_decimal(network.chain_id()).as_str());
                s
            },
            AppError::NoSession(network, owner) => {
                let mut s = String::from_str("No session with network(");
                s.append(u64_to_decimal(network.chain_id()).as_str());
                s.append(") and owner(");
                s.append(owner.to_hex_string().as_str());
                s.append(")");
                s
            },
            AppError::TokenLimitExceeded => String::from_str("Token limit exceeded"),
            AppError::WethAddressIsNotDefined(network) => {
                let mut s = String::from_str("WETH address is not defined for network: ");
                s.append(u64_to_decimal(network.chain_id()).as_str());
                s
            },
        }
    }

    /// The body of the response: the status and the message.
    pub fn error_body(&self) -> (body: ErrorBody)
        ensures
            body.code == self.spec_status_code(),
            body.message@ == self.text(),
    {
        ErrorBody { code: self.status_code(), message: self.message() }
    }
}

impl StreamError {
    /// The HTTP status for the error: its code where that is a status code,
    /// else 500.
    pub open spec fn spec_status(self) -> u16 {
        if 100 <= self.code < 1000 {
            self.code
        } else {
            500
        }
    }

    /// The HTTP status for the error.
    pub fn status(&self) -> (status: u16)
        ensures
            status == self.spec_status(),
    {
        if 100 <= self.code && self.code < 1000 {
            self.code
        } else {
            500
        }
    }
}

/// What is said when the registry refuses to attach a client.
pub open spec fn subscription_error_text(e: SubscriptionError) -> Seq<char> {
    match e {
        SubscriptionError::NoSession => "no session for the owner on the network"@,
        SubscriptionError::TooManyClients => "too many clients"@,
        SubscriptionError::NoClients => "there is no clients"@,
    }
}

/// The stream error for a refusal of the registry: an unknown session is not
/// found; the others are faults of the service.
pub fn subscription_failed(e: SubscriptionError) -> (r: StreamError)
    ensures
        r.code == (if e == SubscriptionError::NoSession {
            404u16
        } else {
            500u16
        }),
        r.message@ == subscription_error_text(e),
{
    match e {
        SubscriptionError::NoSession => StreamError {
            code: 404,
            message: String::from_str("no session for the owner on the network"),
        },
        SubscriptionError::TooManyClients => StreamError {
            code: 500,
            message: String::from_str("too many clients"),
        },
        SubscriptionError::NoClients => StreamError {
            code: 500,
            message: String::from_str("there is no clients"),
        },
    }
}

} // verus!
