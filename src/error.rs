use vstd::prelude::*;

verus! {

/// The four families of failure the broker reports.
#[derive(Clone, Copy, Debug, PartialEq, Eq, Structural)]
pub enum ErrorKind {
    Config,
    Cache,
    Credentials,
    Auth,
}

/// Every failure of the broker. None is fatal to the process: each one is
/// reported to the user, who may retry.
#[derive(Clone, Copy, Debug, PartialEq, Eq, Structural)]
pub enum Error {
    /// No home directory could be resolved.
    NoHomeDirectory,
    /// The configuration file is absent.
    ConfigFileMissing,
    /// The configuration file could not be read as INI text.
    ConfigUnparsable,
    /// A cache record for the session lacks `accessToken` or `expiresAt`.
    CacheEntryInvalid,
    /// A cache record's `expiresAt` is not an RFC 3339 timestamp.
    CacheDateInvalid,
    /// The credentials file could not be read as INI text.
    CredentialsUnparsable,
    /// A credentials section exists but has no `aws_session_expiration`.
    MissingExpiration,
    /// `aws_session_expiration` is in none of the accepted date formats.
    UnparsableExpiration,
    /// The role-credential response carries no credentials.
    MissingRoleCredentials,
    MissingAccessKeyId,
    MissingSecretAccessKey,
    MissingSessionToken,
    /// A timestamp lies outside the range a calendar date can hold.
    InvalidTimestamp,
    MissingClientId,
    MissingClientSecret,
    MissingVerificationUri,
    MissingDeviceCode,
    MissingAccessToken,
    /// The user closed the verification surface before finishing.
    UserCancelled,
    /// The cancellation channel was dropped while polling.
    Disconnected,
    /// The polling budget ran out before a token was issued.
    Timeout,
    SessionNotFound,
    ProfileNotFound,
    MissingRegion,
    MissingStartUrl,
    MissingAccountId,
    MissingRoleName,
    /// A call to the identity provider failed.
    RequestFailed,
}

pub open spec fn kind_of(e: Error) -> ErrorKind {
    match e {
        Error::NoHomeDirectory | Error::ConfigFileMissing | Error::ConfigUnparsable => ErrorKind::Config,
        Error::CacheEntryInvalid | Error::CacheDateInvalid => ErrorKind::Cache,
        Error::CredentialsUnparsable | Error::MissingExpiration | Error::UnparsableExpiration | Error::MissingRoleCredentials
        | Error::MissingAccessKeyId | Error::MissingSecretAccessKey | Error::MissingSessionToken
        | Error::InvalidTimestamp => ErrorKind::Credentials,
        _ => ErrorKind::Auth,
    }
}

/// The text of an error as the user interface shows it.
pub fn trace_err_ret(msg: &str) -> (r: String)
    ensures
        r@ == msg@,
{
    String::from_str(msg)
}

impl Error {
    /// The family this error belongs to.
    pub fn kind(&self) -> (r: ErrorKind)
        ensures
            r == kind_of(*self),
    {
        match self {
            Error::NoHomeDirectory | Error::ConfigFileMissing | Error::ConfigUnparsable => ErrorKind::Config,
            Error::CacheEntryInvalid | Error::CacheDateInvalid => ErrorKind::Cache,
            Error::CredentialsUnparsable | Error::MissingExpiration | Error::UnparsableExpiration | Error::MissingRoleCredentials
            | Error::MissingAccessKeyId | Error::MissingSecretAccessKey | Error::MissingSessionToken
            | Error::InvalidTimestamp => ErrorKind::Credentials,
            _ => ErrorKind::Auth,
        }
    }

    /// A message for the user interface.
    pub fn message(&self) -> &'static str {
        match self {
            Error::NoHomeDirectory => "No home directory detected!",
            Error::ConfigFileMissing => "No config file found. Please configure accordingly!",
            Error::ConfigUnparsable => "The config file could not be parsed!",
            Error::CacheEntryInvalid => "Invalid cache entry!",
            Error::CacheDateInvalid => "Invalid expiration in cache entry!",
            Error::CredentialsUnparsable => "The credentials file could not be parsed!",
            Error::MissingExpiration => "Missing expiration timestamp!",
            Error::UnparsableExpiration => "Failed to parse expiration date!",
            Error::MissingRoleCredentials => "Missing role credentials after login!",
            Error::MissingAccessKeyId => "Missing access key ID!",
            Error::MissingSecretAccessKey => "Missing secret access key!",
            Error::MissingSessionToken => "Missing session token!",
            Error::InvalidTimestamp => "Invalid timestamp!",
            Error::MissingClientId => "Client ID not found!",
            Error::MissingClientSecret => "Client Secret not found!",
            Error::MissingVerificationUri => "No verification uri after client registration!",
            Error::MissingDeviceCode => "Device code not found!",
            Error::MissingAccessToken => "Access token missing from completed auth!",
            Error::UserCancelled => "User closed window before authenticating!",
            Error::Disconnected => "Process exited mid authentication for some reason!",
            Error::Timeout => "Unable to complete SSO login flow!",
            Error::SessionNotFound => "Session not found!",
            Error::ProfileNotFound => "Profile not found!",
            Error::MissingRegion => "No region found!",
            Error::MissingStartUrl => "No start URL found!",
            Error::MissingAccountId => "No account ID found for profile!",
            Error::MissingRoleName => "No role name found for profile!",
            Error::RequestFailed => "Request to the identity provider failed!",
        }
    }
}

} // verus!
